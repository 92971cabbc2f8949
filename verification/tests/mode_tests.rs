use lslong::mode::mode_to_string;

#[test]
fn decode_mode_produces_ten_characters_from_fixed_alphabets() {
    let samples: Vec<u32> = vec![
        0,
        0o100644,
        0o040755,
        0o100777,
        0o020644,
        0o170000,
        0o007777,
        u32::MAX,
        0o100000,
        0o040000,
    ];
    for mode in samples {
        let s = mode_to_string(mode);
        let chars: Vec<char> = s.chars().collect();
        assert_eq!(chars.len(), 10);
        assert!(chars[0] == '-' || chars[0] == 'd' || chars[0] == '?');
        for i in 1..10 {
            let c = chars[i];
            assert!(c == 'r' || c == 'w' || c == 'x' || c == '-');
        }
    }
}

#[test]
fn decode_mode_is_deterministic() {
    let samples: Vec<u32> = vec![0, 0o100644, 0o040755, u32::MAX, 0o123456];
    for mode in samples {
        assert_eq!(mode_to_string(mode), mode_to_string(mode));
    }
}

#[test]
fn full_triads_render_rwx_and_zero_triads_render_dashes() {
    assert_eq!(mode_to_string(0o100777), "-rwxrwxrwx");
    assert_eq!(mode_to_string(0o100000), "----------");
    assert_eq!(mode_to_string(0o040070), "d---rwx---");
    assert_eq!(mode_to_string(0o100700), "-rwx------");
    assert_eq!(mode_to_string(0o100007), "-------rwx");
}

#[test]
fn regular_file_mode_decodes_end_to_end() {
    assert_eq!(mode_to_string(0o100644), "-rw-r--r--");
}

#[test]
fn directory_mode_decodes_end_to_end() {
    assert_eq!(mode_to_string(0o040755), "drwxr-xr-x");
}

#[test]
fn unrecognized_type_bits_decode_to_question_mark() {
    assert_eq!(mode_to_string(0), "?---------");
    assert_eq!(mode_to_string(0o020644), "?rw-r--r--");
    assert_eq!(mode_to_string(0o170000), "?---------");
}
