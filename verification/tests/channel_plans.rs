use usbbench::channel::{open_read, open_write, CacheHint, OpenPlan, Platform};

#[test]
fn write_makes_and_empties_the_file() {
    for platform in [Platform::Unix, Platform::MacOs, Platform::Windows] {
        for direct in [false, true] {
            let plan = open_write(direct, platform);
            assert!(plan.write && plan.create && plan.truncate && !plan.read);
        }
    }
}

#[test]
fn read_leaves_the_file_as_it_is() {
    for platform in [Platform::Unix, Platform::MacOs, Platform::Windows] {
        for direct in [false, true] {
            let plan = open_read(direct, platform);
            assert!(plan.read && !plan.write && !plan.create && !plan.truncate);
        }
    }
}

#[test]
fn direct_asks_for_the_strongest_hint() {
    assert_eq!(
        open_write(true, Platform::Unix),
        OpenPlan {
            read: false,
            write: true,
            create: true,
            truncate: true,
            hint: CacheHint::SynchronousWrites,
            exclude_from_cache: false,
        }
    );
    assert_eq!(
        open_write(true, Platform::MacOs),
        OpenPlan {
            read: false,
            write: true,
            create: true,
            truncate: true,
            hint: CacheHint::SynchronousWrites,
            exclude_from_cache: true,
        }
    );
    assert_eq!(
        open_write(true, Platform::Windows),
        OpenPlan {
            read: false,
            write: true,
            create: true,
            truncate: true,
            hint: CacheHint::WriteThrough,
            exclude_from_cache: false,
        }
    );
    assert_eq!(open_read(true, Platform::Unix).hint, CacheHint::SynchronousWrites);
    assert_eq!(open_read(true, Platform::MacOs).hint, CacheHint::SynchronousWrites);
    assert!(open_read(true, Platform::MacOs).exclude_from_cache);
    assert_eq!(open_read(true, Platform::Windows).hint, CacheHint::WriteThrough);
    assert!(!open_read(true, Platform::Windows).exclude_from_cache);
}

#[test]
fn buffered_asks_for_nothing() {
    for platform in [Platform::Unix, Platform::MacOs, Platform::Windows] {
        assert_eq!(open_write(false, platform).hint, CacheHint::Buffered);
        assert!(!open_write(false, platform).exclude_from_cache);
        assert_eq!(open_read(false, platform).hint, CacheHint::Buffered);
        assert!(!open_read(false, platform).exclude_from_cache);
    }
}
