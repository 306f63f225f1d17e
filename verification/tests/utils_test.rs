use f3core::utils::{
    delay_ms, diff_in_us, file_offset, has_h2w_suffix, ls_my_files, parse_dev_and_num,
    parse_file_number, pr_time_str, GIB, SECTOR_SIZE,
};

#[test]
fn constants() {
    assert_eq!(SECTOR_SIZE, 512);
    assert_eq!(GIB, 1 << 30);
}

#[test]
fn diff_in_us_is_the_distance_or_zero() {
    assert_eq!(diff_in_us(1_000, 4_500), 3_500);
    assert_eq!(diff_in_us(7, 7), 0);
    assert_eq!(diff_in_us(4_500, 1_000), 0);
    assert_eq!(diff_in_us(0, u64::MAX), u64::MAX);
}

#[test]
fn delay_ms_counts_whole_milliseconds() {
    assert_eq!(delay_ms(0, 999), 0);
    assert_eq!(delay_ms(0, 1_000), 1);
    assert_eq!(delay_ms(500, 2_499), 1);
    assert_eq!(delay_ms(500, 2_500), 2);
    assert_eq!(delay_ms(2_500, 500), 0);
    assert_eq!(delay_ms(0, u64::MAX), (u64::MAX / 1000) as i64);
}

#[test]
fn parse_dev_and_num_splits_path_and_number() {
    assert_eq!(parse_dev_and_num("/mnt/usb/12.h2w"), Some(("/mnt/usb/", 12)));
    assert_eq!(parse_dev_and_num("12.h2w"), Some(("", 12)));
    assert_eq!(parse_dev_and_num("x007.h2w"), Some(("x", 7)));
    assert_eq!(parse_dev_and_num("C:\\disk\\3.h2w"), Some(("C:\\disk\\", 3)));
    assert_eq!(parse_dev_and_num("/mnt/\u{fc}ber/41.h2w"), Some(("/mnt/\u{fc}ber/", 41)));
    assert_eq!(parse_dev_and_num("a1b22.h2w"), Some(("a1b", 22)));
    assert_eq!(parse_dev_and_num("-5.h2w"), Some(("-", 5)));
    assert_eq!(parse_dev_and_num("0.h2w"), Some(("", 0)));
}

#[test]
fn parse_dev_and_num_refuses_other_names() {
    assert_eq!(parse_dev_and_num(""), None);
    assert_eq!(parse_dev_and_num(".h2w"), None);
    assert_eq!(parse_dev_and_num("abc.h2w"), None);
    assert_eq!(parse_dev_and_num("/mnt/usb/.h2w"), None);
    assert_eq!(parse_dev_and_num("12.txt"), None);
    assert_eq!(parse_dev_and_num("12.h2"), None);
    assert_eq!(parse_dev_and_num("12.H2W"), None);
    assert_eq!(parse_dev_and_num("12.h2w "), None);
    assert_eq!(parse_dev_and_num("12h2w"), None);
    assert_eq!(parse_dev_and_num("h2w"), None);
    assert_eq!(parse_dev_and_num("12 .h2w"), None);
}

#[test]
fn parse_dev_and_num_number_must_fit_i32() {
    assert_eq!(parse_dev_and_num("2147483647.h2w"), Some(("", i32::MAX)));
    assert_eq!(parse_dev_and_num("2147483648.h2w"), None);
    assert_eq!(parse_dev_and_num("d/99999999999999999999.h2w"), None);
    assert_eq!(parse_dev_and_num("00000000000000000005.h2w"), Some(("", 5)));
    assert_eq!(parse_dev_and_num("d02147483647.h2w"), Some(("d", i32::MAX)));
}

#[test]
fn h2w_suffix() {
    assert!(has_h2w_suffix("1.h2w"));
    assert!(has_h2w_suffix(".h2w"));
    assert!(has_h2w_suffix("/a/b.h2w"));
    assert!(!has_h2w_suffix("h2w"));
    assert!(!has_h2w_suffix(""));
    assert!(!has_h2w_suffix("1.h2w/"));
    assert!(!has_h2w_suffix("1.h2x"));
    assert!(!has_h2w_suffix("1,h2w"));
}

#[test]
fn parse_file_number_reads_signed_decimals() {
    assert_eq!(parse_file_number("1.h2w"), Some(1));
    assert_eq!(parse_file_number("0.h2w"), Some(0));
    assert_eq!(parse_file_number("+5.h2w"), Some(5));
    assert_eq!(parse_file_number("-5.h2w"), Some(-5));
    assert_eq!(parse_file_number("007.h2w"), Some(7));
    assert_eq!(parse_file_number("-0.h2w"), Some(0));
    assert_eq!(parse_file_number("9223372036854775807.h2w"), Some(i64::MAX));
    assert_eq!(parse_file_number("-9223372036854775808.h2w"), Some(i64::MIN));
    assert_eq!(parse_file_number("000009223372036854775807.h2w"), Some(i64::MAX));
}

#[test]
fn parse_file_number_refuses_other_names() {
    for name in [
        "", ".h2w", "+.h2w", "-.h2w", "5", "5.h2", "5a.h2w", "a5.h2w", " 5.h2w", "5 .h2w",
        "5.h2w ", "+-5.h2w", "--5.h2w", "5-.h2w", "1_000.h2w", "0x10.h2w", "1.5.h2w",
        "9223372036854775808.h2w", "-9223372036854775809.h2w", "99999999999999999999999.h2w",
        "\u{664}.h2w",
    ] {
        assert_eq!(parse_file_number(name), None, "{:?}", name);
    }
}

#[test]
fn parse_file_number_agrees_with_the_standard_parser() {
    for stem in [
        "0", "1", "42", "+42", "-42", "0042", "9223372036854775807", "9223372036854775808",
        "-9223372036854775808", "-9223372036854775809", "18446744073709551615", "", "+", "-",
        "4 2", "42x", "x42", "++1", "1e3", "\u{ff11}",
    ] {
        let name = format!("{}.h2w", stem);
        assert_eq!(parse_file_number(&name), stem.parse::<i64>().ok(), "{:?}", stem);
    }
}

fn names(list: &[&str]) -> Vec<String> {
    list.iter().map(|s| s.to_string()).collect()
}

#[test]
fn ls_my_files_sorts_and_filters() {
    let dir = names(&["10.h2w", "2.h2w", "notes.txt", "1.h2w", "x.h2w", "33.h2w", "3.h2w.bak"]);
    assert_eq!(ls_my_files(&dir, 1, 0), vec![1, 2, 10, 33]);
    assert_eq!(ls_my_files(&dir, 2, 10), vec![2, 10]);
    assert_eq!(ls_my_files(&dir, 3, 9), Vec::<i64>::new());
    assert_eq!(ls_my_files(&dir, 11, 0), vec![33]);
    assert_eq!(ls_my_files(&dir, 34, 0), Vec::<i64>::new());
    assert_eq!(ls_my_files(&names(&[]), 1, 0), Vec::<i64>::new());
}

#[test]
fn ls_my_files_end_of_zero_is_no_limit() {
    let dir = names(&["5.h2w", "-3.h2w", "0.h2w", "9223372036854775807.h2w"]);
    assert_eq!(ls_my_files(&dir, 1, 0), vec![5, i64::MAX]);
    assert_eq!(ls_my_files(&dir, -10, 0), vec![-3, 0, 5, i64::MAX]);
    assert_eq!(ls_my_files(&dir, -10, 5), vec![-3, 0, 5]);
    assert_eq!(ls_my_files(&dir, -10, -1), vec![-3]);
}

#[test]
fn ls_my_files_keeps_numbers_that_come_twice() {
    let dir = names(&["7.h2w", "+7.h2w", "07.h2w", "6.h2w", "8.h2w"]);
    assert_eq!(ls_my_files(&dir, 1, 0), vec![6, 7, 7, 7, 8]);
}

#[test]
fn pr_time_str_exact_values() {
    assert_eq!(pr_time_str(0), "");
    assert_eq!(pr_time_str(1), "01s");
    assert_eq!(pr_time_str(9), "09s");
    assert_eq!(pr_time_str(59), "59s");
    assert_eq!(pr_time_str(60), "01m00s");
    assert_eq!(pr_time_str(75), "01m15s");
    assert_eq!(pr_time_str(3599), "59m59s");
    assert_eq!(pr_time_str(3600), "1h00m00s");
    assert_eq!(pr_time_str(3601), "1h00m01s");
    assert_eq!(pr_time_str(3723), "1h02m03s");
    assert_eq!(pr_time_str(36_000), "10h00m00s");
    assert_eq!(pr_time_str(360_000 + 59 * 60 + 7), "100h59m07s");
    assert_eq!(pr_time_str(u64::MAX), "5124095576030431h00m15s");
}

#[test]
fn file_offset_is_one_gib_per_file() {
    assert_eq!(file_offset(0), 0);
    assert_eq!(file_offset(1), 1 << 30);
    assert_eq!(file_offset(3), 3 << 30);
    assert_eq!(file_offset((1 << 34) - 1), u64::MAX - (1 << 30) + 1);
}
