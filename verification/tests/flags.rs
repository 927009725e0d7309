use rugpi_ctrl::flags::{clear_flag_steps, is_flag_set, set_flag_steps, FlagFile, FlagStep};

fn carry_out(steps: &[FlagStep], mut file: FlagFile) -> FlagFile {
    for step in steps {
        file = match step {
            FlagStep::CreateParents => file,
            FlagStep::WriteEmpty => FlagFile::Present { len: 0 },
            FlagStep::Remove => FlagFile::Absent,
        };
    }
    file
}

#[test]
fn setting_makes_the_directories_first() {
    assert_eq!(
        set_flag_steps(true),
        vec![FlagStep::CreateParents, FlagStep::WriteEmpty]
    );
    assert_eq!(set_flag_steps(false), vec![FlagStep::WriteEmpty]);
}

#[test]
fn setting_twice_leaves_one_empty_file() {
    for before in [FlagFile::Absent, FlagFile::Present { len: 0 }, FlagFile::Present { len: 7 }] {
        let once = carry_out(&set_flag_steps(true), before);
        assert_eq!(once, FlagFile::Present { len: 0 });
        let twice = carry_out(&set_flag_steps(true), once);
        assert_eq!(twice, once);
        assert!(is_flag_set(twice));
    }
}

#[test]
fn clearing_a_clear_flag_does_nothing() {
    assert_eq!(clear_flag_steps(FlagFile::Absent), vec![]);
    assert_eq!(
        clear_flag_steps(FlagFile::Present { len: 0 }),
        vec![FlagStep::Remove]
    );
    assert_eq!(
        clear_flag_steps(FlagFile::Present { len: 12 }),
        vec![FlagStep::Remove]
    );
    for before in [FlagFile::Absent, FlagFile::Present { len: 0 }] {
        let cleared = carry_out(&clear_flag_steps(before), before);
        assert_eq!(cleared, FlagFile::Absent);
        assert!(!is_flag_set(cleared));
        assert!(clear_flag_steps(cleared).is_empty());
    }
}

#[test]
fn a_flag_is_set_by_its_presence() {
    assert!(!is_flag_set(FlagFile::Absent));
    assert!(is_flag_set(FlagFile::Present { len: 0 }));
    assert!(is_flag_set(FlagFile::Present { len: 100 }));
}
