use cockpit_logger::tail::{
    clamp_log_tail_lines, decode_log_text, read_log_tail_lines, TailScan,
    LOG_TAIL_SCAN_CHUNK_BYTES,
};

/// Runs a scan over `contents`, read in pieces of the sizes that the scan asks for.
fn scan_start(contents: &[u8], line_limit: usize) -> usize {
    let mut scan = TailScan::new(contents.len() as u64, line_limit);
    while let Some((offset, len)) = scan.next_read() {
        let from = offset as usize;
        scan.feed(&contents[from..from + len]);
    }
    scan.start_offset() as usize
}

/// The offset behind the line end that has `line_limit` line ends behind it.
fn expected_start(contents: &[u8], line_limit: usize) -> usize {
    let limit = line_limit.max(1);
    let ends: Vec<usize> =
        (0..contents.len()).rev().filter(|i| contents[*i] == b'\n').collect();
    if ends.len() > limit {
        ends[limit] + 1
    } else {
        0
    }
}

#[test]
fn clamp_keeps_the_limits() {
    assert_eq!(clamp_log_tail_lines(None), 200);
    assert_eq!(clamp_log_tail_lines(Some(0)), 20);
    assert_eq!(clamp_log_tail_lines(Some(19)), 20);
    assert_eq!(clamp_log_tail_lines(Some(20)), 20);
    assert_eq!(clamp_log_tail_lines(Some(300)), 300);
    assert_eq!(clamp_log_tail_lines(Some(5000)), 5000);
    assert_eq!(clamp_log_tail_lines(Some(5001)), 5000);
    assert_eq!(clamp_log_tail_lines(Some(usize::MAX)), 5000);
}

#[test]
fn clamping_twice_is_clamping_once() {
    for lines in [0usize, 7, 20, 21, 4999, 5000, 9999] {
        let once = clamp_log_tail_lines(Some(lines));
        assert_eq!(clamp_log_tail_lines(Some(once)), once);
    }
}

#[test]
fn last_lines_of_a_terminated_log() {
    assert_eq!(read_log_tail_lines(b"a\nb\nc\n", 1), "c\n");
    assert_eq!(read_log_tail_lines(b"a\nb\nc\n", 2), "b\nc\n");
    assert_eq!(read_log_tail_lines(b"a\nb\nc\n", 3), "a\nb\nc\n");
    assert_eq!(read_log_tail_lines(b"a\nb\nc\n", 99), "a\nb\nc\n");
}

#[test]
fn unterminated_last_line_comes_on_top() {
    assert_eq!(read_log_tail_lines(b"a\nb\nc", 1), "b\nc");
    assert_eq!(read_log_tail_lines(b"a\nb\nc", 2), "a\nb\nc");
}

#[test]
fn zero_lines_count_as_one() {
    assert_eq!(read_log_tail_lines(b"a\nb\n", 0), "b\n");
}

#[test]
fn empty_log_has_an_empty_tail() {
    assert_eq!(read_log_tail_lines(b"", 5), "");
}

#[test]
fn log_of_line_ends() {
    assert_eq!(read_log_tail_lines(b"\n\n\n\n", 2), "\n\n");
    assert_eq!(read_log_tail_lines(b"\n", 1), "\n");
}

#[test]
fn log_without_line_end_is_its_own_tail() {
    assert_eq!(read_log_tail_lines("日志".as_bytes(), 1), "日志");
}

#[test]
fn invalid_bytes_are_replaced() {
    assert_eq!(decode_log_text(&[b'a', 0xff, b'b']), "a\u{fffd}b");
    assert_eq!(decode_log_text(&[0xe6, 0x97]), "\u{fffd}");
    assert_eq!(decode_log_text("журнал".as_bytes()), "журнал");
    assert_eq!(read_log_tail_lines(b"x\n\xffy\n", 1), "\u{fffd}y\n");
}

#[test]
fn scan_asks_for_chunks_from_the_end() {
    let mut scan = TailScan::new(20000, 3);
    assert_eq!(scan.next_read(), Some((11808, 8192)));
    scan.feed(&[b'x'; 8192]);
    assert_eq!(scan.next_read(), Some((3616, 8192)));
    scan.feed(&[b'x'; 8192]);
    assert_eq!(scan.next_read(), Some((0, 3616)));
    scan.feed(&[b'x'; 3616]);
    assert_eq!(scan.next_read(), None);
    assert_eq!(scan.start_offset(), 0);
}

#[test]
fn scan_stops_where_the_tail_begins() {
    let mut scan = TailScan::new(10000, 1);
    let mut chunk = vec![b'x'; 8192];
    chunk[8191] = b'\n';
    chunk[100] = b'\n';
    chunk[50] = b'\n';
    assert_eq!(scan.next_read(), Some((1808, 8192)));
    scan.feed(&chunk);
    assert_eq!(scan.next_read(), None);
    assert_eq!(scan.start_offset(), 1808 + 101);
}

#[test]
fn scan_of_an_empty_file_reads_nothing() {
    let scan = TailScan::new(0, 10);
    assert_eq!(scan.next_read(), None);
    assert_eq!(scan.start_offset(), 0);
}

#[test]
fn start_does_not_depend_on_chunks() {
    let chunk = LOG_TAIL_SCAN_CHUNK_BYTES as usize;
    for len in [1, 2, chunk - 1, chunk, chunk + 1, 2 * chunk, 3 * chunk + 17] {
        for step in [1usize, 7, 100, chunk - 1, chunk, chunk + 1] {
            let contents: Vec<u8> =
                (0..len).map(|i| if i % step == 0 { b'\n' } else { b'x' }).collect();
            for limit in [0usize, 1, 2, 3, 81, 82, 8192, usize::MAX] {
                assert_eq!(
                    scan_start(&contents, limit),
                    expected_start(&contents, limit),
                    "{len} {step} {limit}"
                );
            }
        }
    }
}

#[test]
fn more_lines_give_a_longer_tail() {
    let contents: Vec<u8> = (0..30000u32).map(|i| if i % 13 == 5 { b'\n' } else { b'y' }).collect();
    let mut last = contents.len();
    for limit in 1..200 {
        let start = scan_start(&contents, limit);
        assert!(start <= last);
        assert!(start == 0 || contents[start - 1] == b'\n');
        assert_eq!(contents[start..].iter().filter(|b| **b == b'\n').count(), limit);
        last = start;
    }
}

#[test]
fn tail_of_a_readable_log_is_the_end_of_its_text() {
    let text = "первая строка\n第二行😀\nlast é\n";
    for limit in 1..5 {
        let tail = read_log_tail_lines(text.as_bytes(), limit);
        assert!(text.ends_with(&tail));
        assert!(!tail.contains('\u{fffd}'));
    }
    assert_eq!(read_log_tail_lines(text.as_bytes(), 2), "第二行😀\nlast é\n");
}

#[test]
fn smaller_limit_gives_a_suffix() {
    let texts: [&[u8]; 4] =
        ["один\n二\nthree\n四".as_bytes(), b"\n\n\n", b"x", b"a\n\xffb\n\xe6\nc\n"];
    for text in texts {
        for more in 0..6 {
            for fewer in 0..=more {
                let long = read_log_tail_lines(text, more);
                assert!(long.ends_with(&read_log_tail_lines(text, fewer)));
            }
        }
    }
}

#[test]
fn text_is_read_line_by_line() {
    let lines: [&[u8]; 12] = [
        b"",
        b"a",
        "日志".as_bytes(),
        b"\xff",
        b"\xe6",
        b"\xe6\x97",
        b"\xf0\x9f\x98",
        b"\x80\x80",
        b"\xc0\xaf",
        b"\xed\xa0\x80",
        b"x\xf4\x90y",
        b"\xc3",
    ];
    for a in lines {
        for b in lines {
            let whole = [a, b"\n", b].concat();
            assert_eq!(
                decode_log_text(&whole),
                format!("{}\n{}", decode_log_text(a), decode_log_text(b))
            );
        }
    }
    assert_eq!(decode_log_text(b"\xe6\x97\n\xa5"), "\u{fffd}\n\u{fffd}");
}

#[test]
fn tail_of_any_log_is_the_end_of_its_text() {
    let contents = b"one\n\xe6\x97\n\xa5two\n\xff";
    for limit in 0..6 {
        let whole = decode_log_text(contents);
        assert!(whole.ends_with(&read_log_tail_lines(contents, limit)));
    }
    assert_eq!(read_log_tail_lines(contents, 1), "\u{fffd}two\n\u{fffd}");
}

#[test]
fn whole_log_and_scan_agree() {
    let contents: Vec<u8> = (0..20000u32).map(|i| if i % 31 == 0 { b'\n' } else { b'z' }).collect();
    for limit in [1usize, 20, 263, 264, 265, 5000] {
        let start = scan_start(&contents, limit);
        assert_eq!(read_log_tail_lines(&contents, limit).as_bytes(), &contents[start..]);
    }
}
