use cockpit_logger::mask::{mask_domain_head, mask_domain_part, mask_email, mask_local_part};
use cockpit_logger::record::{
    goes_to_app_log, goes_to_codex_api_log, log_codex_api_error, log_codex_api_info,
    log_codex_api_warn, log_error, log_info, log_warn, LogLevel, LogTarget,
};
use cockpit_logger::sanitize::{redact_emails, sanitize_message, EMAIL_PATTERN};
use cockpit_logger::translate::{translate_log_message, PHRASES};
use regex::{Captures, Regex};

/// The messages that the sanitizing tests go through.
fn messages() -> Vec<String> {
    let mut all: Vec<String> = [
        "",
        "plain text",
        "user john.doe@example.com logged in",
        "a@b.co",
        "A.B@C.DE, x_y%z+1-2@mail.sub-domain.example.org!",
        "two a@b.com c@d.com",
        "a@b.com,c@d.com;e@f.com",
        "not@an@address.com",
        "x@y",
        "@example.com",
        "joe@",
        "joe@x.c",
        "joe@x.c1",
        "joe@-x.com",
        "joe@x..com",
        ".joe.@x.com",
        "邮箱joe@x.io",
        "邮箱：joe@x.io；结束",
        "почта ivan@пример.рф ivan@example.ru конец",
        "joe@x.com邮箱",
        "😀joe@x.com😀",
        "ſtrange@K.com",
        "joe*doe@x.com",
        "a@b.com@c.com",
        "<joe@x.com>",
        "刷新失败 joe.smith@mail.example.com 耗时 3",
    ]
    .iter()
    .map(|s| s.to_string())
    .collect();
    all.push(format!("{}@{}.com", "l".repeat(300), "d".repeat(300)));
    all
}

#[test]
fn local_part_is_masked_by_length() {
    assert_eq!(mask_local_part(""), "***");
    assert_eq!(mask_local_part("a"), "*");
    assert_eq!(mask_local_part("ab"), "a*");
    assert_eq!(mask_local_part("abc"), "a*c");
    assert_eq!(mask_local_part("abcd"), "ab***d");
    assert_eq!(mask_local_part("john.doe"), "jo***e");
    assert_eq!(mask_local_part("日志文件名"), "日志***名");
}

#[test]
fn domain_head_is_masked_by_length() {
    assert_eq!(mask_domain_head(""), "***");
    assert_eq!(mask_domain_head("a"), "*");
    assert_eq!(mask_domain_head("ab"), "a*");
    assert_eq!(mask_domain_head("abc"), "a***c");
    assert_eq!(mask_domain_head("example"), "e***e");
}

#[test]
fn domain_keeps_what_follows_the_first_dot() {
    assert_eq!(mask_domain_part("example.com"), "e***e.com");
    assert_eq!(mask_domain_part("mail.example.co.uk"), "m***l.example.co.uk");
    assert_eq!(mask_domain_part("localhost"), "l***t");
    assert_eq!(mask_domain_part(".com"), "***.com");
    assert_eq!(mask_domain_part(""), "***");
    assert_eq!(mask_domain_part("a..b"), "*..b");
    assert_eq!(mask_domain_part("abc."), "a***c.");
}

#[test]
fn address_is_split_at_the_first_sign() {
    assert_eq!(mask_email("john.doe@example.com"), "jo***e@e***e.com");
    assert_eq!(mask_email("a@b.co"), "*@*.co");
    assert_eq!(mask_email("ab@c@d.com"), "a*@c***d.com");
    assert_eq!(mask_email("@x"), "***@*");
    assert_eq!(mask_email("a@"), "*@***");
}

#[test]
fn text_without_sign_is_kept() {
    assert_eq!(mask_email("no address"), "no address");
    assert_eq!(mask_email(""), "");
}

#[test]
fn mask_hides_length_and_inner_characters() {
    assert_eq!(mask_email("abcdefg@example.com"), mask_email("abxxxxxxxxg@enormouse.com"));
    for address in ["a@b.c", "ab@cd.e", "abc@def.g", "abcd@defg.h"] {
        let masked = mask_email(address);
        assert!(masked.contains('*') && masked.contains('@') && masked != address);
    }
}

#[test]
fn masking_twice_is_masking_once() {
    for part in ["", "a", "ab", "abc", "abcd", "abcdefgh"] {
        assert_eq!(mask_local_part(&mask_local_part(part)), mask_local_part(part));
    }
    for domain in ["a", "ab", "abc", "abcd.e", "a.b", "mail.example.org", "a..b"] {
        assert_eq!(mask_domain_part(&mask_domain_part(domain)), mask_domain_part(domain));
        for local in ["", "a", "john.doe"] {
            let masked = mask_email(&format!("{local}@{domain}"));
            assert_eq!(mask_email(&masked), masked);
        }
    }
    assert_eq!(mask_email("a@.b"), "*@***.b");
    assert_eq!(mask_email("*@***.b"), "*@*****.b");
}

#[test]
fn star_stands_before_dot() {
    for address in ["a@b.c", "ab@cd.e", "@.x", "a@", "abcd@efgh", "a@b@c.d", "x@mail.example.org"] {
        let masked = mask_email(address);
        let at = masked.find('@').unwrap();
        let behind = &masked[at + 1..];
        let star = behind.find('*').unwrap();
        assert!(behind.find('.').map_or(true, |dot| star < dot));
    }
}

#[test]
fn known_phrases_are_rewritten() {
    assert_eq!(translate_log_message("刷新完成"), "обновление завершено");
    assert_eq!(translate_log_message("所有账号配额"), "квоты всех аккаунтов");
    assert_eq!(translate_log_message("账号配额"), "квоты аккаунтов");
    assert_eq!(translate_log_message("keys=1"), "ключи=1");
    assert_eq!(translate_log_message("a：b；c"), "a: b; c");
    assert_eq!(translate_log_message("x 失败"), "x с ошибкой");
    assert_eq!(
        translate_log_message("开始刷新账号 x 刷新失败"),
        "начало обновления аккаунта x обновление завершилось ошибкой"
    );
}

#[test]
fn later_phrases_see_what_earlier_ones_left() {
    assert_eq!(
        translate_log_message("手动批量刷新完成"),
        "ручное пакетное обновление завершено"
    );
    assert_eq!(translate_log_message("批量刷新完成"), "пакетное обновление завершено");
    assert_eq!(
        translate_log_message("更新检查完成：当前已是最新版本"),
        "проверка обновлений завершена: уже установлена последняя версия"
    );
}

#[test]
fn unknown_text_is_kept() {
    for message in ["", "plain", "日志", "ключи", "joe@example.com"] {
        assert_eq!(translate_log_message(message), message);
    }
}

#[test]
fn translation_applies_the_phrases_in_order() {
    let mut inputs: Vec<String> = PHRASES.iter().map(|(from, _)| from.to_string()).collect();
    inputs.push(PHRASES.iter().map(|(from, _)| *from).collect::<Vec<_>>().join(" "));
    inputs.push(PHRASES.iter().map(|(from, to)| format!("{from}{to}")).collect());
    for input in inputs {
        let mut expected = input.clone();
        for (from, to) in PHRASES {
            assert!(!from.is_empty());
            expected = expected.replace(from, to);
        }
        assert_eq!(translate_log_message(&input), expected, "{input}");
    }
}

#[test]
fn addresses_in_messages_are_masked() {
    assert_eq!(
        sanitize_message("user john.doe@example.com logged in"),
        "user jo***e@e***e.com logged in"
    );
    assert_eq!(sanitize_message("a@b.co"), "*@*.co");
    assert_eq!(sanitize_message("two a@b.com c@d.com"), "two *@*.com *@*.com");
    assert_eq!(sanitize_message("邮箱：joe@x.io；结束"), "邮箱: j*e@*.io; 结束");
    assert_eq!(
        sanitize_message("刷新失败 joe.smith@mail.example.com 耗时 3"),
        "обновление завершилось ошибкой jo***h@m***l.example.com затрачено 3"
    );
}

#[test]
fn message_without_address_is_kept() {
    for message in ["", "plain text", "x@y", "@example.com", "joe@x.c"] {
        assert_eq!(sanitize_message(message), message);
    }
}

#[test]
fn sanitizing_is_replacing_every_match() {
    let regex = Regex::new(r"(?i)\b[a-z0-9._%+\-]+@[a-z0-9.\-]+\.[a-z]{2,}\b").unwrap();
    assert_eq!(regex.as_str(), EMAIL_PATTERN);
    for message in messages() {
        let translated = translate_log_message(&message);
        let expected =
            regex.replace_all(&translated, |caps: &Captures| mask_email(&caps[0])).to_string();
        assert_eq!(sanitize_message(&message), expected, "{message}");
    }
}

#[test]
fn matches_hold_the_sign_and_no_star() {
    let regex = Regex::new(EMAIL_PATTERN).unwrap();
    for message in messages() {
        let mut last = 0;
        for found in regex.find_iter(&message) {
            let at = found.as_str().find('@').unwrap();
            let behind = &found.as_str()[at + 1..];
            assert!(!behind.contains('@') && behind.contains('.'));
            assert!(!found.as_str().contains('*'));
            assert!(last <= found.start() && found.start() < found.end());
            assert!(mask_email(found.as_str()) != found.as_str());
            last = found.end();
        }
    }
}

#[test]
fn message_without_sign_is_only_translated() {
    for message in ["", "plain text", "刷新完成 example.com", "joe.example.com", "keys=1"] {
        assert_eq!(sanitize_message(message), translate_log_message(message));
        assert_eq!(log_error(message).message, translate_log_message(message));
    }
    for (from, to) in PHRASES {
        assert!(!from.contains('@') && !to.contains('@'));
    }
}

#[test]
fn masked_address_is_not_found_again() {
    for local in ["a", "ab", "abc", "john.doe"] {
        for domain in ["b.co", "xy.io", "example.com", "mail.example.org"] {
            let masked = mask_email(&format!("{local}@{domain}"));
            for text in [masked.clone(), format!("to {masked}, now"), format!("a{masked}b")] {
                assert_eq!(sanitize_message(&text), text);
            }
            assert_eq!(
                sanitize_message(&format!("{masked} joe@x.com")),
                format!("{masked} j*e@*.com")
            );
        }
    }
}

#[test]
fn translation_is_line_by_line() {
    let lines: Vec<&str> =
        vec!["", "刷新完成", "x 失败", "开始刷新", "账号", "更新检查完成：", "keys=", "手动批量刷新完成"];
    for a in &lines {
        for b in &lines {
            assert_eq!(
                translate_log_message(&format!("{a}\n{b}")),
                format!("{}\n{}", translate_log_message(a), translate_log_message(b))
            );
        }
    }
}

#[test]
fn plain_address_is_one_match() {
    let regex = Regex::new(EMAIL_PATTERN).unwrap();
    for local in ["a", "ab", "keys", "zzzzzzzzzz", "com"] {
        for head in ["a", "bc", "com", "mailserver"] {
            for top in ["io", "com", "museum"] {
                let text = format!("{local}@{head}.{top}");
                let spans: Vec<(usize, usize)> =
                    regex.find_iter(&text).map(|m| (m.start(), m.end())).collect();
                assert_eq!(spans, vec![(0, text.len())]);
                assert_eq!(sanitize_message(&text), mask_email(&text));
            }
        }
    }
}

#[test]
fn letters_of_plain_address_are_hidden() {
    for hidden in ["x", "yy", "keys", "abcdefghijklmnopqrstuvwxyz"] {
        for label in ["q", "rst", "com"] {
            assert_eq!(
                sanitize_message(&format!("ab{hidden}c@d{label}e.com")),
                "ab***c@d***e.com"
            );
            assert_eq!(
                log_codex_api_warn(&format!("ab{hidden}c@d{label}e.com")).message,
                "ab***c@d***e.com"
            );
        }
    }
}

#[test]
fn given_spans_are_masked() {
    assert_eq!(redact_emails("hello", &vec![]), "hello");
    assert_eq!(redact_emails("to joe@x.io now", &vec![(3, 11)]), "to j*e@*.io now");
    assert_eq!(redact_emails("a@b.cc@d.e", &vec![(0, 5), (5, 10)]), "*@*.c*@*.e");
    assert_eq!(redact_emails("é a@b.c é", &vec![(3, 8)]), "é *@*.c é");
    assert_eq!(redact_emails("é a@b.c é", &vec![(0, 2), (3, 3)]), "é a@b.c é");
    assert_eq!(redact_emails("", &vec![]), "");
}

#[test]
fn records_carry_level_target_and_sanitized_message() {
    let message = "刷新完成 a@b.co";
    let expected = "обновление завершено *@*.co";
    let cases = [
        (log_info(message), LogLevel::Info, LogTarget::App),
        (log_warn(message), LogLevel::Warn, LogTarget::App),
        (log_error(message), LogLevel::Error, LogTarget::App),
        (log_codex_api_info(message), LogLevel::Info, LogTarget::CodexApi),
        (log_codex_api_warn(message), LogLevel::Warn, LogTarget::CodexApi),
        (log_codex_api_error(message), LogLevel::Error, LogTarget::CodexApi),
    ];
    for (record, level, target) in cases {
        assert_eq!(record.level, level);
        assert_eq!(record.target, target);
        assert_eq!(record.message, expected);
    }
}

#[test]
fn records_reach_their_log() {
    for module in ["app::log", ""] {
        assert_eq!(LogTarget::App.text(module), module);
        assert_eq!(LogTarget::CodexApi.text(module), "codex_api");
        assert!(goes_to_app_log(LogTarget::App.text(module)));
        assert!(!goes_to_codex_api_log(LogTarget::App.text(module)));
        assert!(goes_to_codex_api_log(LogTarget::CodexApi.text(module)));
        assert!(!goes_to_app_log(LogTarget::CodexApi.text(module)));
    }
}

#[test]
fn each_target_has_one_log() {
    for target in ["codex_api", "codex_api::x", "app", "", "CODEX_API"] {
        assert!(goes_to_app_log(target) != goes_to_codex_api_log(target));
        assert_eq!(goes_to_codex_api_log(target), target == "codex_api");
    }
}
