//! The choice of the device under test.
//!
//! The host's volumes come in as plain values. From them the library makes
//! the menu of candidates, and from the menu and the line that the user
//! typed the directory to test.

use vstd::prelude::*;
use vstd::string::*;
use crate::path::{
    lemma_path_less_irreflexive, lemma_path_less_transitive, order_of_paths, parts_of, path_less,
    Part, PartView,
};
use crate::text::{
    all_digits, chars_of, decimal_string, decimal_text, decimal_value, is_digit,
    lemma_digit_run_holds_digits, parse_digits, text_of, trim, trim_bounds, trimmed, Order,
};

verus! {

/// A mounted volume of the host.
#[derive(Debug)]
pub struct Volume {
    pub name: String,
    /// The mount point, as the host writes it.
    pub mount_point: String,
    /// The mount point, part by part.
    pub parts: Vec<Part>,
    /// Whether the host flags the volume as removable.
    pub removable: bool,
}

/// An entry of the menu.
#[derive(Debug, PartialEq, Eq)]
pub struct Candidate {
    /// What the menu shows.
    pub label: String,
    /// The directory that the entry stands for, as the host writes it.
    pub mount_point: String,
    /// The place, in the list of volumes, of the volume that the entry was
    /// made from.
    pub source: usize,
}

/// Which volumes are offered.
#[derive(Clone, Copy, Debug, PartialEq, Eq, Structural)]
pub enum VolumeFilter {
    /// Those that the host flags as removable.
    Removable,
    /// For hosts whose flag cannot be relied on: all but the system drive,
    /// the one whose mount point starts with `C`.
    NotSystemDrive,
}

/// Why a line names no directory to test.
#[derive(Clone, Copy, Debug, PartialEq, Eq, Structural)]
pub enum SelectionError {
    /// The line is not a number.
    InvalidSelection,
    /// The number is zero or larger than the menu is long.
    OutOfRange,
    /// No volume is offered and the line is empty: there is no device and
    /// no directory to fall back on.
    NoPath,
}

/// The directory to test.
#[derive(Debug, PartialEq, Eq)]
pub enum Target {
    /// An entry of the menu.
    Entry(Candidate),
    /// A directory that the user typed.
    Typed(String),
}

/// Whether `filter` lets `volume` into the menu.
pub open spec fn offered(filter: VolumeFilter, volume: Volume) -> bool {
    match filter {
        VolumeFilter::Removable => volume.removable,
        VolumeFilter::NotSystemDrive => volume.mount_point@.len() > 0
            && volume.mount_point@.first() != 'C',
    }
}

/// What separates name and mount point in a label: a dash between two
/// spaces.
pub open spec fn label_separator() -> Seq<char> {
    seq![' ', '\u{2014}', ' ']
}

/// The label of `volume`: its name and its mount point.
pub open spec fn label_of(volume: Volume) -> Seq<char> {
    volume.name@ + label_separator() + volume.mount_point@
}

/// The mount point of `volume` as a path.
pub open spec fn path_of(volume: Volume) -> Seq<PartView> {
    parts_of(volume.parts@)
}

/// Whether the volume at `i` is offered and no offered volume before it has
/// the same mount point.
pub open spec fn first_offered(volumes: Seq<Volume>, filter: VolumeFilter, i: int) -> bool {
    &&& 0 <= i < volumes.len()
    &&& offered(filter, volumes[i])
    &&& forall|j: int|
        0 <= j < i && offered(filter, #[trigger] volumes[j]) ==> path_of(volumes[j]) != path_of(
            volumes[i],
        )
}

/// Whether `candidate` is the entry of the first offered volume with its
/// mount point.
pub open spec fn made_from(candidate: Candidate, volumes: Seq<Volume>, filter: VolumeFilter) -> bool {
    &&& first_offered(volumes, filter, candidate.source as int)
    &&& candidate.label@ == label_of(volumes[candidate.source as int])
    &&& candidate.mount_point@ == volumes[candidate.source as int].mount_point@
}

/// The mount point of the entry at `k`, as a path.
pub open spec fn path_at(menu: Seq<Candidate>, volumes: Seq<Volume>, k: int) -> Seq<PartView> {
    path_of(volumes[menu[k].source as int])
}

/// Whether the mount points of `menu` ascend strictly in the order of
/// paths; none occurs twice then.
pub open spec fn ascending(menu: Seq<Candidate>, volumes: Seq<Volume>) -> bool {
    forall|a: int, b: int|
        0 <= a < b < menu.len() ==> path_less(
            #[trigger] path_at(menu, volumes, a),
            #[trigger] path_at(menu, volumes, b),
        )
}

/// Whether `menu` has an entry for the mount point `path`.
pub open spec fn has_path(menu: Seq<Candidate>, volumes: Seq<Volume>, path: Seq<PartView>) -> bool {
    exists|k: int| 0 <= k < menu.len() && #[trigger] path_at(menu, volumes, k) == path
}

/// Whether `menu` is the menu of `volumes`: one entry for each mount point
/// that an offered volume has, made from the first such volume, the entries
/// in ascending order of their mount points.
pub open spec fn is_menu_of(menu: Seq<Candidate>, volumes: Seq<Volume>, filter: VolumeFilter) -> bool {
    &&& forall|k: int| 0 <= k < menu.len() ==> made_from(#[trigger] menu[k], volumes, filter)
    &&& ascending(menu, volumes)
    &&& forall|i: int|
        0 <= i < volumes.len() && offered(filter, #[trigger] volumes[i]) ==> has_path(
            menu,
            volumes,
            path_of(volumes[i]),
        )
}

/// The line of the menu for the entry at `index`, counted from zero: the
/// entries are numbered from one.
pub open spec fn menu_line_text(index: nat, label: Seq<char>) -> Seq<char> {
    seq![' ', ' '] + decimal_text(index + 1) + seq!['.', ' '] + label
}

/// The number that `line` holds, as the host reads numbers: an optional `+`
/// and then digits only, white space around them passed over; `None` where
/// `line` is not of that form or the number is not below `limit`.
pub open spec fn number_of(line: Seq<char>, limit: nat) -> Option<nat> {
    let t = trimmed(line);
    let digits = if t.len() > 0 && t.first() == '+' {
        t.drop_first()
    } else {
        t
    };
    if digits.len() > 0 && all_digits(digits) && decimal_value(digits) < limit {
        Some(decimal_value(digits))
    } else {
        None
    }
}

/// The index that `line` picks in a menu of `count` entries.
pub open spec fn selection_of(line: Seq<char>, count: nat) -> Result<nat, SelectionError> {
    match number_of(line, usize::MAX as nat + 1) {
        None => Err(SelectionError::InvalidSelection),
        Some(n) => if 1 <= n <= count {
            Ok((n - 1) as nat)
        } else {
            Err(SelectionError::OutOfRange)
        },
    }
}

/// Whether `r` is the directory to test, given the menu and the line that
/// the user typed. With an empty menu the line is the directory itself,
/// without the white space around it, and must not be empty. Otherwise the
/// line is the number of an entry.
pub open spec fn is_target_of(
    r: Result<Target, SelectionError>,
    menu: Seq<Candidate>,
    line: Seq<char>,
) -> bool {
    if menu.len() == 0 {
        if trimmed(line).len() > 0 {
            r matches Ok(Target::Typed(path)) && path@ == trimmed(line)
        } else {
            r == Err::<Target, SelectionError>(SelectionError::NoPath)
        }
    } else {
        match selection_of(line, menu.len()) {
            Ok(i) => r == Ok::<Target, SelectionError>(Target::Entry(menu[i as int])),
            Err(e) => r == Err::<Target, SelectionError>(e),
        }
    }
}

/// Whether `filter` lets `volume` into the menu.
pub fn is_offered(filter: VolumeFilter, volume: &Volume) -> (r: bool)
    ensures
        r == offered(filter, *volume),
{
    match filter {
        VolumeFilter::Removable => volume.removable,
        VolumeFilter::NotSystemDrive => {
            let mount = volume.mount_point.as_str();
            mount.unicode_len() > 0 && mount.get_char(0) != 'C'
        },
    }
}

/// The menu entry of the volume at `source`.
fn candidate_of(volumes: &Vec<Volume>, source: usize) -> (c: Candidate)
    requires
        source < volumes@.len(),
    ensures
        c.source == source,
        c.label@ == label_of(volumes@[source as int]),
        c.mount_point@ == volumes@[source as int].mount_point@,
{
    let volume = &volumes[source];
    let mut label = volume.name.clone();
    label.push(' ');
    label.push('\u{2014}');
    label.push(' ');
    label.append(volume.mount_point.as_str());
    assert(label@ == label_of(*volume));
    Candidate { label, mount_point: volume.mount_point.clone(), source }
}

/// Whether every entry of `menu` was made from a volume of `volumes`.
spec fn in_range(menu: Seq<Candidate>, volumes: Seq<Volume>) -> bool {
    forall|k: int| 0 <= k < menu.len() ==> (#[trigger] menu[k]).source < volumes.len()
}

/// Where the mount point of the volume at `i` stands in `menu`: the index
/// of its entry and `true`, or the index at which an entry for it keeps the
/// order and `false`.
fn position_of(menu: &Vec<Candidate>, volumes: &Vec<Volume>, i: usize) -> (r: (usize, bool))
    requires
        i < volumes@.len(),
        in_range(menu@, volumes@),
        ascending(menu@, volumes@),
    ensures
        r.0 <= menu@.len(),
        forall|k: int|
            0 <= k < r.0 ==> path_less(
                #[trigger] path_at(menu@, volumes@, k),
                path_of(volumes@[i as int]),
            ),
        r.1 ==> r.0 < menu@.len() && path_at(menu@, volumes@, r.0 as int) == path_of(
            volumes@[i as int],
        ),
        !r.1 ==> !has_path(menu@, volumes@, path_of(volumes@[i as int])),
        !r.1 && r.0 < menu@.len() ==> path_less(
            path_of(volumes@[i as int]),
            path_at(menu@, volumes@, r.0 as int),
        ),
{
    let mut p: usize = 0;
    while p < menu.len()
        invariant
            p <= menu@.len(),
            i < volumes@.len(),
            in_range(menu@, volumes@),
            ascending(menu@, volumes@),
            forall|k: int|
                0 <= k < p ==> path_less(
                    #[trigger] path_at(menu@, volumes@, k),
                    path_of(volumes@[i as int]),
                ),
        decreases menu@.len() - p,
    {
        assert(menu@[p as int].source < volumes@.len());
        match order_of_paths(&volumes[menu[p].source].parts, &volumes[i].parts) {
            Order::Before => {
                p += 1;
            },
            Order::Same => {
                return (p, true);
            },
            Order::After => {
                proof {
                    lemma_absent(menu@, volumes@, p as int, path_of(volumes@[i as int]));
                }
                return (p, false);
            },
        }
    }
    proof {
        lemma_absent(menu@, volumes@, p as int, path_of(volumes@[i as int]));
    }
    (p, false)
}

/// A mount point that lies between two neighbours of an ascending menu, or
/// behind its last entry, has no entry.
proof fn lemma_absent(menu: Seq<Candidate>, volumes: Seq<Volume>, p: int, path: Seq<PartView>)
    requires
        ascending(menu, volumes),
        0 <= p <= menu.len(),
        forall|k: int| 0 <= k < p ==> path_less(#[trigger] path_at(menu, volumes, k), path),
        p < menu.len() ==> path_less(path, path_at(menu, volumes, p)),
    ensures
        !has_path(menu, volumes, path),
{
    lemma_path_less_irreflexive(path);
    assert forall|k: int| 0 <= k < menu.len() implies #[trigger] path_at(menu, volumes, k)
        != path by {
        if k > p {
            lemma_path_less_transitive(path, path_at(menu, volumes, p), path_at(menu, volumes, k));
        }
    }
}

/// An entry put between the neighbours that it belongs between keeps the
/// menu ascending.
proof fn lemma_insert_keeps_order(
    menu: Seq<Candidate>,
    volumes: Seq<Volume>,
    p: int,
    candidate: Candidate,
)
    requires
        ascending(menu, volumes),
        0 <= p <= menu.len(),
        forall|k: int|
            0 <= k < p ==> path_less(
                #[trigger] path_at(menu, volumes, k),
                path_of(volumes[candidate.source as int]),
            ),
        p < menu.len() ==> path_less(
            path_of(volumes[candidate.source as int]),
            path_at(menu, volumes, p),
        ),
    ensures
        ascending(menu.insert(p, candidate), volumes),
{
    let after = menu.insert(p, candidate);
    let new = path_of(volumes[candidate.source as int]);
    assert forall|a: int, b: int| 0 <= a < b < after.len() implies path_less(
        #[trigger] path_at(after, volumes, a),
        #[trigger] path_at(after, volumes, b),
    ) by {
        if b < p {
            assert(after[a] == menu[a] && after[b] == menu[b]);
            assert(path_less(path_at(menu, volumes, a), path_at(menu, volumes, b)));
        } else if b == p {
            assert(after[a] == menu[a]);
            assert(path_less(path_at(menu, volumes, a), new));
        } else if a < p {
            assert(after[a] == menu[a] && after[b] == menu[b - 1]);
            assert(path_less(path_at(menu, volumes, a), path_at(menu, volumes, b - 1)));
        } else if a == p {
            assert(after[b] == menu[b - 1]);
            if b - 1 > p {
                assert(path_less(path_at(menu, volumes, p), path_at(menu, volumes, b - 1)));
                lemma_path_less_transitive(
                    new,
                    path_at(menu, volumes, p),
                    path_at(menu, volumes, b - 1),
                );
            }
        } else {
            assert(after[a] == menu[a - 1] && after[b] == menu[b - 1]);
            assert(path_less(path_at(menu, volumes, a - 1), path_at(menu, volumes, b - 1)));
        }
    }
}

/// The menu of `volumes`.
pub fn candidates(volumes: &Vec<Volume>, filter: VolumeFilter) -> (menu: Vec<Candidate>)
    ensures
        is_menu_of(menu@, volumes@, filter),
{
    let mut menu: Vec<Candidate> = Vec::new();
    let mut i: usize = 0;
    while i < volumes.len()
        invariant
            i <= volumes@.len(),
            ascending(menu@, volumes@),
            forall|k: int|
                0 <= k < menu@.len() ==> (#[trigger] menu@[k]).source < i && made_from(
                    menu@[k],
                    volumes@,
                    filter,
                ),
            forall|j: int|
                0 <= j < i && offered(filter, #[trigger] volumes@[j]) ==> has_path(
                    menu@,
                    volumes@,
                    path_of(volumes@[j]),
                ),
        decreases volumes@.len() - i,
    {
        if is_offered(filter, &volumes[i]) {
            assert(in_range(menu@, volumes@));
            let (p, found) = position_of(&menu, volumes, i);
            if !found {
                let candidate = candidate_of(volumes, i);
                let ghost before = menu@;
                proof {
                    lemma_insert_keeps_order(before, volumes@, p as int, candidate);
                    assert forall|j: int| 0 <= j < i && offered(filter, #[trigger] volumes@[j]) implies path_of(
                        volumes@[j],
                    ) != path_of(volumes@[i as int]) by {
                        assert(has_path(before, volumes@, path_of(volumes@[j])));
                    }
                    assert(made_from(candidate, volumes@, filter));
                }
                menu.insert(p, candidate);
                proof {
                    assert forall|j: int|
                        0 <= j < i + 1 && offered(filter, #[trigger] volumes@[j]) implies has_path(
                        menu@,
                        volumes@,
                        path_of(volumes@[j]),
                    ) by {
                        if j < i {
                            let k = choose|k: int|
                                0 <= k < before.len() && #[trigger] path_at(before, volumes@, k)
                                    == path_of(volumes@[j]);
                            if k < p {
                                assert(menu@[k] == before[k]);
                                assert(path_at(menu@, volumes@, k) == path_of(volumes@[j]));
                            } else {
                                assert(menu@[k + 1] == before[k]);
                                assert(path_at(menu@, volumes@, k + 1) == path_of(volumes@[j]));
                            }
                        } else {
                            assert(path_at(menu@, volumes@, p as int) == path_of(volumes@[j]));
                        }
                    }
                    assert forall|k: int| 0 <= k < menu@.len() implies (#[trigger] menu@[k]).source
                        < i + 1 && made_from(menu@[k], volumes@, filter) by {
                        if k < p {
                            assert(menu@[k] == before[k]);
                        } else if k > p {
                            assert(menu@[k] == before[k - 1]);
                        }
                    }
                }
            } else {
                assert(has_path(menu@, volumes@, path_of(volumes@[i as int]))) by {
                    assert(path_at(menu@, volumes@, p as int) == path_of(volumes@[i as int]));
                }
            }
        }
        i += 1;
    }
    menu
}

/// The line of the menu for the entry at `index`.
pub fn menu_line(index: usize, label: &str) -> (line: String)
    ensures
        line@ == menu_line_text(index as nat, label@),
{
    let mut line = String::new();
    line.push(' ');
    line.push(' ');
    let number = decimal_string(index as u128 + 1);
    line.append(number.as_str());
    line.push('.');
    line.push(' ');
    line.append(label);
    assert(line@ == menu_line_text(index as nat, label@));
    line
}

/// Reads the number of an entry from `line` and checks it against a menu of
/// `count` entries. Returns the index of the entry, counted from zero.
pub fn parse_selection(line: &str, count: usize) -> (r: Result<usize, SelectionError>)
    ensures
        r is Ok <==> selection_of(line@, count as nat) is Ok,
        r matches Ok(i) ==> selection_of(line@, count as nat) == Ok::<nat, SelectionError>(i as nat)
            && i < count,
        r matches Err(e) ==> selection_of(line@, count as nat) == Err::<nat, SelectionError>(e),
{
    let v = chars_of(line);
    let (a, b) = trim_bounds(&v);
    let t = chars_of(text_of(&v, a, b).as_str());
    let start: usize = if t.len() > 0 && t[0] == '+' {
        1
    } else {
        0
    };
    let (end, number) = parse_digits(&t, start, usize::MAX as u64);
    proof {
        assert(t@ == trimmed(line@));
        let digits = t@.skip(start as int);
        assert(start == 1 ==> digits == t@.drop_first());
        assert(start == 0 ==> digits == t@);
        if end == t@.len() {
            assert(t@.subrange(start as int, end as int) == digits);
        } else {
            lemma_digit_run_holds_digits(digits);
            assert(!is_digit(digits[end - start]));
        }
    }
    if end == start || end < t.len() {
        return Err(SelectionError::InvalidSelection);
    }
    match number {
        None => Err(SelectionError::InvalidSelection),
        Some(n) => if 1 <= n && n <= count as u64 {
            Ok((n - 1) as usize)
        } else {
            Err(SelectionError::OutOfRange)
        },
    }
}

/// The directory to test, given the menu and the line that the user typed.
pub fn choose_target_dir(menu: &Vec<Candidate>, line: &str) -> (r: Result<Target, SelectionError>)
    ensures
        is_target_of(r, menu@, line@),
        r is Ok <==> (if menu@.len() == 0 {
            trimmed(line@).len() > 0
        } else {
            selection_of(line@, menu@.len()) is Ok
        }),
{
    if menu.len() == 0 {
        let path = trim(line);
        if path.as_str().unicode_len() == 0 {
            return Err(SelectionError::NoPath);
        }
        return Ok(Target::Typed(path));
    }
    match parse_selection(line, menu.len()) {
        Ok(i) => {
            let picked = &menu[i];
            Ok(
                Target::Entry(
                    Candidate {
                        label: picked.label.clone(),
                        mount_point: picked.mount_point.clone(),
                        source: picked.source,
                    },
                ),
            )
        },
        Err(e) => Err(e),
    }
}

/// Two menus of `volumes` have the same entries at the same places, up to
/// `k`.
proof fn lemma_menus_agree_up_to(
    a: Seq<Candidate>,
    b: Seq<Candidate>,
    volumes: Seq<Volume>,
    filter: VolumeFilter,
    k: int,
)
    requires
        is_menu_of(a, volumes, filter),
        is_menu_of(b, volumes, filter),
        0 <= k <= a.len(),
    ensures
        k <= b.len(),
        forall|j: int| 0 <= j < k ==> #[trigger] path_at(a, volumes, j) == path_at(b, volumes, j),
    decreases k,
{
    if k > 0 {
        let n = k - 1;
        lemma_menus_agree_up_to(a, b, volumes, filter, n);
        let m = path_at(a, volumes, n);
        lemma_path_less_irreflexive(m);
        assert(made_from(a[n], volumes, filter));
        assert(has_path(b, volumes, path_of(volumes[a[n].source as int])));
        let p = choose|p: int| 0 <= p < b.len() && #[trigger] path_at(b, volumes, p) == m;
        if p < n {
            assert(path_at(a, volumes, p) == path_at(b, volumes, p));
            assert(path_less(path_at(a, volumes, p), path_at(a, volumes, n)));
        } else if p > n {
            let other = path_at(b, volumes, n);
            assert(made_from(b[n], volumes, filter));
            assert(has_path(a, volumes, path_of(volumes[b[n].source as int])));
            let q = choose|q: int| 0 <= q < a.len() && #[trigger] path_at(a, volumes, q) == other;
            assert(path_less(path_at(b, volumes, n), path_at(b, volumes, p)));
            if q < n {
                assert(path_at(a, volumes, q) == path_at(b, volumes, q));
                assert(path_less(path_at(b, volumes, q), path_at(b, volumes, n)));
                lemma_path_less_irreflexive(other);
            } else if q > n {
                assert(path_less(path_at(a, volumes, n), path_at(a, volumes, q)));
                lemma_path_less_transitive(m, other, m);
            }
        }
        assert(p == n);
    }
}

/// A list of volumes has one menu: two menus of it are equally long and
/// have, at every place, the entry of the same volume, with the same label
/// and the same mount point.
pub proof fn lemma_menu_is_unique(
    a: Seq<Candidate>,
    b: Seq<Candidate>,
    volumes: Seq<Volume>,
    filter: VolumeFilter,
)
    requires
        is_menu_of(a, volumes, filter),
        is_menu_of(b, volumes, filter),
    ensures
        a.len() == b.len(),
        forall|k: int|
            0 <= k < a.len() ==> (#[trigger] a[k]).source == b[k].source && a[k].label@
                == b[k].label@ && a[k].mount_point@ == b[k].mount_point@,
{
    lemma_menus_agree_up_to(a, b, volumes, filter, a.len() as int);
    lemma_menus_agree_up_to(b, a, volumes, filter, b.len() as int);
    assert forall|k: int| 0 <= k < a.len() implies (#[trigger] a[k]).source == b[k].source
        && a[k].label@ == b[k].label@ && a[k].mount_point@ == b[k].mount_point@ by {
        assert(made_from(a[k], volumes, filter));
        assert(made_from(b[k], volumes, filter));
        assert(path_at(a, volumes, k) == path_at(b, volumes, k));
    }
}

} // verus!
