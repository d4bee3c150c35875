use kei::effects::{covers, is_known, STANDARD_EFFECTS};

#[test]
fn hierarchy_containment() {
    assert!(covers("IO", "Database.Write"));
    assert!(covers("IO", "Clock"));
    assert!(covers("Database", "Database.Write"));
    assert!(covers("Database.Write", "Database.Write"));
    assert!(!covers("Database.Write", "Database"));
    assert!(!covers("Database.Read", "Database.Write"));
    assert!(!covers("Database", "DatabaseX"));
    assert!(!covers("Clock", "IO"));
}

#[test]
fn io_does_not_cover_async() {
    assert!(!covers("IO", "Async"));
    assert!(!covers("IO", "Async.Foo"));
    assert!(covers("Async", "Async"));
    assert!(covers("IO", "Database.Write"));
}

#[test]
fn every_standard_effect_is_known() {
    for effect in STANDARD_EFFECTS {
        assert!(is_known(effect), "{effect} must be known");
    }
    assert_eq!(STANDARD_EFFECTS.len(), 15);
}

#[test]
fn unknown_effects_are_rejected() {
    assert!(!is_known("Databse"));
    assert!(!is_known("Database.Delete"));
    assert!(!is_known(""));
    assert!(!is_known("io"));
    assert!(!is_known("Async.Foo"));
}

#[test]
fn io_covers_every_standard_effect_but_async() {
    for effect in STANDARD_EFFECTS {
        assert_eq!(covers("IO", effect), effect != "Async", "IO vs {effect}");
    }
}

#[test]
fn containment_is_reflexive_and_reaches_descendants() {
    for effect in STANDARD_EFFECTS {
        assert!(covers(effect, effect));
        let child = format!("{effect}.Child");
        assert!(covers(effect, &child), "{effect} must cover {child}");
    }
    assert!(covers("Network", "Network.Read.Deep"));
    assert!(covers("IO", "Custom.Thing"));
}

#[test]
fn containment_needs_a_dot_boundary() {
    assert!(!covers("File", "FileX.Read"));
    assert!(!covers("File", "Fil"));
    assert!(!covers("Audit.Log", "Audit"));
    assert!(!covers("Network", "Networx.Read"));
    assert!(!covers("Database.Read", "Database.ReadAll"));
}

#[test]
fn containment_is_transitive_on_the_hierarchy() {
    for a in STANDARD_EFFECTS {
        for b in STANDARD_EFFECTS {
            for c in STANDARD_EFFECTS {
                if covers(a, b) && covers(b, c) {
                    assert!(covers(a, c), "{a} > {b} > {c}");
                }
            }
        }
    }
}
