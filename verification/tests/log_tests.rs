use sensorlog::log::{append_and_enforce, append_line, count_lines, trim_oldest};
use sensorlog::record::{format_record, Reading};

#[test]
fn scenario_empty_file_single_append() {
    let r = Reading { pressure_centi: 101325, temperature_centi: 2250 };
    let line = format_record(&r, None);
    let mut content: Vec<u8> = Vec::new();
    append_line(&mut content, &line);
    assert_eq!(content, b"1013.25 22.50\n".to_vec());
    assert_eq!(count_lines(&content), 1);
}

#[test]
fn scenario_full_file_append_evicts_oldest() {
    let zero = Reading { pressure_centi: 0, temperature_centi: 0 };
    let zero_line = format_record(&zero, None);
    assert_eq!(zero_line, b"0.00 0.00".to_vec());
    let mut content: Vec<u8> = Vec::new();
    for _ in 0..100 {
        append_line(&mut content, &zero_line);
    }
    assert_eq!(count_lines(&content), 100);
    let new = format_record(&Reading { pressure_centi: 100, temperature_centi: 200 }, None);
    let trimmed = append_and_enforce(&mut content, &new, 100);
    assert!(trimmed);
    assert_eq!(count_lines(&content), 100);
    let text = String::from_utf8(content).unwrap();
    let lines: Vec<&str> = text.lines().collect();
    assert_eq!(lines.len(), 100);
    assert_eq!(lines[98], "0.00 0.00");
    assert_eq!(lines[99], "1.00 2.00");
    assert!(lines[..99].iter().all(|l| *l == "0.00 0.00"));
}

#[test]
fn count_lines_empty_content_is_zero() {
    let content: Vec<u8> = Vec::new();
    assert_eq!(count_lines(&content), 0);
}

#[test]
fn count_lines_counts_terminators_only() {
    assert_eq!(count_lines(&b"a\nb\n".to_vec()), 2);
    assert_eq!(count_lines(&b"a\nb".to_vec()), 1);
    assert_eq!(count_lines(&b"\n\n\n".to_vec()), 3);
}

#[test]
fn trim_oldest_drops_first_line_only() {
    assert_eq!(trim_oldest(&b"a\nb\nc\n".to_vec()), b"b\nc\n".to_vec());
    assert_eq!(trim_oldest(&b"\nrest\n".to_vec()), b"rest\n".to_vec());
}

#[test]
fn trim_oldest_without_terminator_leaves_nothing() {
    assert_eq!(trim_oldest(&Vec::new()), Vec::<u8>::new());
    assert_eq!(trim_oldest(&b"no newline".to_vec()), Vec::<u8>::new());
}

#[test]
fn append_below_capacity_does_not_trim() {
    let mut content: Vec<u8> = Vec::new();
    let line = b"9.99 9.99".to_vec();
    let trimmed = append_and_enforce(&mut content, &line, 100);
    assert!(!trimmed);
    assert_eq!(content, b"9.99 9.99\n".to_vec());
}

#[test]
fn capacity_is_never_exceeded_over_many_cycles() {
    let cap = 100;
    let mut content: Vec<u8> = Vec::new();
    for i in 0..250 {
        let r = Reading { pressure_centi: i, temperature_centi: i };
        let line = format_record(&r, None);
        append_and_enforce(&mut content, &line, cap);
        assert!(count_lines(&content) <= cap);
    }
}

#[test]
fn eviction_is_fifo_with_sequence_numbers() {
    let cap = 10;
    let mut content: Vec<u8> = Vec::new();
    for i in 1..=25 {
        let r = Reading { pressure_centi: i, temperature_centi: 0 };
        let line = format_record(&r, None);
        append_and_enforce(&mut content, &line, cap);
    }
    let text = String::from_utf8(content).unwrap();
    let numbers: Vec<i32> = text
        .lines()
        .map(|l| {
            let first = l.split(' ').next().unwrap();
            let mut parts = first.split('.');
            let whole: i32 = parts.next().unwrap().parse().unwrap();
            let frac: i32 = parts.next().unwrap().parse().unwrap();
            whole * 100 + frac
        })
        .collect();
    assert_eq!(numbers, (17..=25).collect::<Vec<i32>>());
}

#[test]
fn every_line_stays_well_formed_over_cycles() {
    let cap = 7;
    let mut content: Vec<u8> = Vec::new();
    for i in 0..40 {
        let r = Reading { pressure_centi: -i, temperature_centi: i * 3 };
        let line = format_record(&r, None);
        append_and_enforce(&mut content, &line, cap);
        let text = String::from_utf8(content.clone()).unwrap();
        for l in text.lines() {
            assert_eq!(l.split_whitespace().count(), 2);
        }
    }
}
