use std::path::{Component, Path, PathBuf, Prefix};

use usbbench::device::{
    candidates, choose_target_dir, is_offered, menu_line, parse_selection, Candidate,
    SelectionError, Target, Volume, VolumeFilter,
};
use usbbench::path::{Part, PartKind};

fn part(kind: PartKind, first: &str, second: &str) -> Part {
    Part { kind, first: first.to_string(), second: second.to_string() }
}

fn letter(drive: u8) -> String {
    char::from(drive).to_string()
}

fn parts(path: &Path) -> Vec<Part> {
    path.components()
        .map(|c| match c {
            Component::Prefix(p) => match p.kind() {
                Prefix::Verbatim(a) => part(PartKind::VerbatimPrefix, &a.to_string_lossy(), ""),
                Prefix::VerbatimUNC(a, b) => {
                    part(PartKind::VerbatimUncPrefix, &a.to_string_lossy(), &b.to_string_lossy())
                }
                Prefix::VerbatimDisk(d) => part(PartKind::VerbatimDiskPrefix, &letter(d), ""),
                Prefix::DeviceNS(a) => {
                    part(PartKind::DeviceNamespacePrefix, &a.to_string_lossy(), "")
                }
                Prefix::UNC(a, b) => {
                    part(PartKind::UncPrefix, &a.to_string_lossy(), &b.to_string_lossy())
                }
                Prefix::Disk(d) => part(PartKind::DiskPrefix, &letter(d), ""),
            },
            Component::RootDir => part(PartKind::Root, "", ""),
            Component::CurDir => part(PartKind::Current, "", ""),
            Component::ParentDir => part(PartKind::Parent, "", ""),
            Component::Normal(name) => part(PartKind::Normal, &name.to_string_lossy(), ""),
        })
        .collect()
}

fn volume(name: &str, mount_point: &str, removable: bool) -> Volume {
    Volume {
        name: name.to_string(),
        mount_point: mount_point.to_string(),
        parts: parts(Path::new(mount_point)),
        removable,
    }
}

fn drive(name: &str, disk: &str, removable: bool) -> Volume {
    Volume {
        name: name.to_string(),
        mount_point: format!("{disk}:\\"),
        parts: vec![part(PartKind::DiskPrefix, disk, ""), part(PartKind::Root, "", "")],
        removable,
    }
}

fn entries(menu: &[Candidate]) -> Vec<(String, String, usize)> {
    menu.iter().map(|c| (c.label.clone(), c.mount_point.clone(), c.source)).collect()
}

fn entry(label: &str, mount_point: &str, source: usize) -> (String, String, usize) {
    (label.to_string(), mount_point.to_string(), source)
}

fn menu_as_paths_sort(mounts: &[&str]) -> Vec<String> {
    let mut found: Vec<(String, PathBuf)> =
        mounts.iter().map(|m| (m.to_string(), PathBuf::from(m))).collect();
    found.sort_by(|a, b| a.1.cmp(&b.1));
    found.dedup_by(|a, b| a.1 == b.1);
    found.into_iter().map(|f| f.0).collect()
}

#[test]
fn only_removable_volumes_are_offered() {
    let volumes = vec![
        volume("root", "/", false),
        volume("STICK", "/media/stick", true),
        volume("home", "/home", false),
    ];
    let menu = candidates(&volumes, VolumeFilter::Removable);
    assert_eq!(entries(&menu), vec![entry("STICK \u{2014} /media/stick", "/media/stick", 1)]);
}

#[test]
fn menu_is_in_order_of_mount_points() {
    let volumes = vec![
        volume("c", "/media/c", true),
        volume("a", "/media/a", true),
        volume("b", "/media/b", true),
        volume("ab", "/media/ab", true),
        volume("top", "/media", true),
    ];
    let menu = candidates(&volumes, VolumeFilter::Removable);
    assert_eq!(
        entries(&menu),
        vec![
            entry("top \u{2014} /media", "/media", 4),
            entry("a \u{2014} /media/a", "/media/a", 1),
            entry("ab \u{2014} /media/ab", "/media/ab", 3),
            entry("b \u{2014} /media/b", "/media/b", 2),
            entry("c \u{2014} /media/c", "/media/c", 0),
        ]
    );
}

#[test]
fn paths_are_ordered_part_by_part() {
    let volumes = vec![volume("two", "/mnt/usb-2", true), volume("inner", "/mnt/usb/inner", true)];
    let menu = candidates(&volumes, VolumeFilter::Removable);
    assert_eq!(
        entries(&menu),
        vec![
            entry("inner \u{2014} /mnt/usb/inner", "/mnt/usb/inner", 1),
            entry("two \u{2014} /mnt/usb-2", "/mnt/usb-2", 0),
        ]
    );
    assert_eq!(
        choose_target_dir(&menu, "1\n"),
        Ok(Target::Entry(Candidate {
            label: "inner \u{2014} /mnt/usb/inner".to_string(),
            mount_point: "/mnt/usb/inner".to_string(),
            source: 1,
        }))
    );
}

#[test]
fn menu_is_what_sorting_paths_gives() {
    let mounts = [
        "/mnt/usb-2",
        "/mnt/usb/inner",
        "/mnt/usb",
        "/",
        "/mnt/usb/",
        "/mnt//usb/inner",
        "/media/Z",
        "/media/a",
        "/media/a b",
        "/media/a/b",
        "/media/a.b",
        "/m",
        "relative/path",
        "./relative",
        "../up",
        "/media/\u{e9}t\u{e9}",
        "/media/zz",
        "/mnt/usb-2",
        "/mnt/./usb",
    ];
    let volumes: Vec<Volume> = mounts.iter().map(|m| volume("v", m, true)).collect();
    let menu = candidates(&volumes, VolumeFilter::Removable);
    let ours: Vec<String> = menu.iter().map(|c| c.mount_point.clone()).collect();
    assert_eq!(ours, menu_as_paths_sort(&mounts));
    for c in &menu {
        assert_eq!(c.mount_point, mounts[c.source]);
    }
}

#[test]
fn mount_point_is_offered_once() {
    let volumes = vec![
        volume("USB", "/media/b", true),
        volume("Sys", "/", false),
        volume("Stick", "/media/a", true),
        volume("Dup", "/media/b", true),
        volume("Fixed", "/media/a", false),
        volume("Again", "/media/a", true),
    ];
    let menu = candidates(&volumes, VolumeFilter::Removable);
    assert_eq!(
        entries(&menu),
        vec![
            entry("Stick \u{2014} /media/a", "/media/a", 2),
            entry("USB \u{2014} /media/b", "/media/b", 0),
        ]
    );
}

#[test]
fn mount_point_written_otherwise_is_the_same() {
    let volumes = vec![
        volume("first", "/media/b/", true),
        volume("second", "/media/b", true),
        volume("third", "/media//b", true),
    ];
    let menu = candidates(&volumes, VolumeFilter::Removable);
    assert_eq!(entries(&menu), vec![entry("first \u{2014} /media/b/", "/media/b/", 0)]);
}

#[test]
fn no_volumes_no_menu() {
    assert!(candidates(&Vec::new(), VolumeFilter::Removable).is_empty());
    let fixed = vec![volume("root", "/", false)];
    assert!(candidates(&fixed, VolumeFilter::Removable).is_empty());
}

#[test]
fn system_drive_is_left_out() {
    let volumes = vec![
        drive("Stick", "E", true),
        drive("Windows", "C", false),
        drive("Data", "D", false),
        Volume { name: String::new(), mount_point: String::new(), parts: Vec::new(), removable: true },
    ];
    let menu = candidates(&volumes, VolumeFilter::NotSystemDrive);
    assert_eq!(
        entries(&menu),
        vec![entry("Data \u{2014} D:\\", "D:\\", 2), entry("Stick \u{2014} E:\\", "E:\\", 0)]
    );
    assert!(!is_offered(VolumeFilter::NotSystemDrive, &drive("Windows", "C", true)));
    assert!(!is_offered(VolumeFilter::NotSystemDrive, &volume("none", "", true)));
    assert!(is_offered(VolumeFilter::NotSystemDrive, &drive("lower", "c", false)));
    assert!(is_offered(VolumeFilter::Removable, &drive("Windows", "C", true)));
    assert!(!is_offered(VolumeFilter::Removable, &drive("Data", "D", false)));
}

#[test]
fn menu_lines_are_numbered_from_one() {
    assert_eq!(menu_line(0, "STICK \u{2014} /media/stick"), "  1. STICK \u{2014} /media/stick");
    assert_eq!(menu_line(9, "x"), "  10. x");
    assert_eq!(menu_line(122, ""), "  123. ");
}

#[test]
fn selection_is_a_number_of_the_menu() {
    assert_eq!(parse_selection("1", 3), Ok(0));
    assert_eq!(parse_selection("3", 3), Ok(2));
    assert_eq!(parse_selection(" 2\n", 3), Ok(1));
    assert_eq!(parse_selection("+2", 3), Ok(1));
    assert_eq!(parse_selection("002", 3), Ok(1));
    assert_eq!(parse_selection("10", 12), Ok(9));
}

#[test]
fn selection_outside_the_menu_is_refused() {
    assert_eq!(parse_selection("0", 3), Err(SelectionError::OutOfRange));
    assert_eq!(parse_selection("4", 3), Err(SelectionError::OutOfRange));
    assert_eq!(parse_selection("1", 0), Err(SelectionError::OutOfRange));
    assert_eq!(parse_selection("+0", 3), Err(SelectionError::OutOfRange));
    assert_eq!(parse_selection(&usize::MAX.to_string(), 3), Err(SelectionError::OutOfRange));
}

#[test]
fn selection_that_is_no_number_is_refused() {
    assert_eq!(parse_selection("", 3), Err(SelectionError::InvalidSelection));
    assert_eq!(parse_selection("   ", 3), Err(SelectionError::InvalidSelection));
    assert_eq!(parse_selection("one", 3), Err(SelectionError::InvalidSelection));
    assert_eq!(parse_selection("-1", 3), Err(SelectionError::InvalidSelection));
    assert_eq!(parse_selection("+", 3), Err(SelectionError::InvalidSelection));
    assert_eq!(parse_selection("++1", 3), Err(SelectionError::InvalidSelection));
    assert_eq!(parse_selection("1+", 3), Err(SelectionError::InvalidSelection));
    assert_eq!(parse_selection("1.", 3), Err(SelectionError::InvalidSelection));
    assert_eq!(parse_selection("1 2", 3), Err(SelectionError::InvalidSelection));
    assert_eq!(parse_selection("2x", 3), Err(SelectionError::InvalidSelection));
    assert_eq!(
        parse_selection("340282366920938463463374607431768211456", 3),
        Err(SelectionError::InvalidSelection)
    );
}

#[test]
fn selection_reads_numbers_as_the_host_does() {
    for line in ["1", "+1", " 1 ", "01", "", "+", "-1", "a", "1a", "99", "0", "18446744073709551616"] {
        let host = line.trim().parse::<usize>();
        let ours = parse_selection(line, 50);
        match host {
            Err(_) => assert_eq!(ours, Err(SelectionError::InvalidSelection), "{line:?}"),
            Ok(n) if n >= 1 && n <= 50 => assert_eq!(ours, Ok(n - 1), "{line:?}"),
            Ok(_) => assert_eq!(ours, Err(SelectionError::OutOfRange), "{line:?}"),
        }
    }
}

#[test]
fn target_is_the_entry_that_was_picked() {
    let volumes = vec![volume("b", "/media/b", true), volume("a", "/media/a", true)];
    let menu = candidates(&volumes, VolumeFilter::Removable);
    assert_eq!(
        choose_target_dir(&menu, "1\n"),
        Ok(Target::Entry(Candidate {
            label: "a \u{2014} /media/a".to_string(),
            mount_point: "/media/a".to_string(),
            source: 1,
        }))
    );
    assert_eq!(
        choose_target_dir(&menu, "2\n"),
        Ok(Target::Entry(Candidate {
            label: "b \u{2014} /media/b".to_string(),
            mount_point: "/media/b".to_string(),
            source: 0,
        }))
    );
    assert_eq!(choose_target_dir(&menu, "3\n"), Err(SelectionError::OutOfRange));
    assert_eq!(choose_target_dir(&menu, "0\n"), Err(SelectionError::OutOfRange));
    assert_eq!(choose_target_dir(&menu, "/media/a\n"), Err(SelectionError::InvalidSelection));
    assert_eq!(choose_target_dir(&menu, "\n"), Err(SelectionError::InvalidSelection));
}

#[test]
fn target_is_the_line_when_nothing_is_offered() {
    let menu: Vec<Candidate> = Vec::new();
    assert_eq!(
        choose_target_dir(&menu, "  /tmp/bench \n"),
        Ok(Target::Typed("/tmp/bench".to_string()))
    );
    assert_eq!(choose_target_dir(&menu, "1\n"), Ok(Target::Typed("1".to_string())));
}

#[test]
fn no_device_and_no_path_is_an_error() {
    let menu: Vec<Candidate> = Vec::new();
    assert_eq!(choose_target_dir(&menu, ""), Err(SelectionError::NoPath));
    assert_eq!(choose_target_dir(&menu, "\n"), Err(SelectionError::NoPath));
    assert_eq!(choose_target_dir(&menu, "  \t \r\n"), Err(SelectionError::NoPath));
}
