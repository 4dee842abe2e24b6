use werust_core::redirects::{
    match_fallback, parse_redirects, FallbackAction, RedirectRule, RedirectsError,
    MAX_REDIRECTS_BYTES,
};

const CONVENTION_EXAMPLE: &[u8] = b"/redirect-one /one.html\n\
    /301-redirect-one /one.html 301\n\
    /302-redirect-two /two.html 302\n\
    /200-index /index.html 200\n\
    /posts/:year/:month/:day/:title /articles/:year/:month/:day/:title 301\n\
    /splat/* /redirected-splat/:splat 301\n\
    /not-found/* /404.html 404\n\
    /gone/* /410.html 410\n\
    /unavail/* /451.html 451\n\
    /* /index.html 200\n";

fn rules(text: &str) -> Vec<RedirectRule> {
    parse_redirects(text.as_bytes()).expect("valid _redirects")
}

#[test]
fn parses_the_spec_example_file_in_order_with_the_default_status() {
    let parsed = parse_redirects(CONVENTION_EXAMPLE).expect("the convention's example file parses");
    assert_eq!(parsed.len(), 10);
    assert_eq!(
        parsed[0],
        RedirectRule { from: "/redirect-one".into(), to: "/one.html".into(), status: 301 }
    );
    assert_eq!(parsed[9].from, "/*");
    assert_eq!(parsed[9].status, 200);
}

#[test]
fn ignores_blank_lines_surrounding_whitespace_and_comments() {
    let parsed = rules("\n  \t\n  /a  /b  200  \n# a comment\n\r\n/c /d 404\r\n");
    assert_eq!(parsed.len(), 2);
    assert_eq!(parsed[0].from, "/a");
    assert_eq!(parsed[0].to, "/b");
    assert_eq!(parsed[1].status, 404);
}

#[test]
fn refuses_a_file_over_the_64_kib_limit() {
    let big = vec![b'\n'; MAX_REDIRECTS_BYTES + 1];
    assert_eq!(
        parse_redirects(&big),
        Err(RedirectsError::TooLarge { size: MAX_REDIRECTS_BYTES + 1 })
    );
}

#[test]
fn refuses_a_malformed_line_rather_than_dropping_it() {
    assert!(matches!(
        parse_redirects(b"/only-one-field\n"),
        Err(RedirectsError::InvalidLine { line: 1, .. })
    ));
    assert!(matches!(
        parse_redirects(b"/a /b 200 extra\n"),
        Err(RedirectsError::InvalidLine { line: 1, .. })
    ));
    assert!(matches!(
        parse_redirects(b"/a /b 999\n"),
        Err(RedirectsError::InvalidLine { line: 1, .. })
    ));
    assert!(matches!(
        parse_redirects(b"/a /b nope\n"),
        Err(RedirectsError::InvalidLine { line: 1, .. })
    ));
    assert!(matches!(
        parse_redirects(b"relative /b 200\n"),
        Err(RedirectsError::InvalidLine { line: 1, .. })
    ));
}

#[test]
fn refuses_a_repeated_placeholder_name_in_from() {
    assert!(matches!(
        parse_redirects(b"/a/:x/:x /b/:x 301\n"),
        Err(RedirectsError::InvalidLine { line: 1, .. })
    ));
}

#[test]
fn the_jolly_roger_catch_all_serves_the_custom_404_page() {
    let parsed = rules("/* /404.html/index.html 404\n");
    assert_eq!(
        match_fallback(&parsed, "/unknown"),
        Some(Ok(FallbackAction::Serve { path: "/404.html/index.html".into(), status: 404 }))
    );
}

#[test]
fn a_200_rule_is_a_same_url_rewrite() {
    let parsed = rules("/app/* /app/index.html 200\n");
    assert_eq!(
        match_fallback(&parsed, "/app/deep/route"),
        Some(Ok(FallbackAction::Serve { path: "/app/index.html".into(), status: 200 }))
    );
}

#[test]
fn the_first_matching_rule_wins_and_a_non_matching_rule_is_skipped() {
    let parsed = rules("/app/* /app/index.html 200\n/* /404.html 404\n");
    assert_eq!(
        match_fallback(&parsed, "/app/x"),
        Some(Ok(FallbackAction::Serve { path: "/app/index.html".into(), status: 200 }))
    );
    assert_eq!(
        match_fallback(&parsed, "/elsewhere"),
        Some(Ok(FallbackAction::Serve { path: "/404.html".into(), status: 404 }))
    );
}

#[test]
fn no_rule_matching_is_not_an_error() {
    let parsed = rules("/only/this /that.html 200\n");
    assert_eq!(match_fallback(&parsed, "/something-else"), None);
}

#[test]
fn placeholders_are_captured_and_injected_including_repeats() {
    let parsed = rules("/posts/:year/:month/:title /articles/:year/:year-:month/:title 200\n");
    assert_eq!(
        match_fallback(&parsed, "/posts/2026/07/hello"),
        Some(Ok(FallbackAction::Serve {
            path: "/articles/2026/2026-07/hello".into(),
            status: 200,
        }))
    );
    assert_eq!(match_fallback(&parsed, "/posts/2026/07/a/b"), None);
}

#[test]
fn the_trailing_splat_slurps_the_remainder_greedily() {
    let parsed = rules("/splat/* /redirected-splat/:splat 200\n");
    assert_eq!(
        match_fallback(&parsed, "/splat/a/b/c"),
        Some(Ok(FallbackAction::Serve { path: "/redirected-splat/a/b/c".into(), status: 200 }))
    );
    assert_eq!(
        match_fallback(&parsed, "/splat"),
        Some(Ok(FallbackAction::Serve { path: "/redirected-splat".into(), status: 200 }))
    );
}

#[test]
fn an_off_root_target_is_refused_not_skipped() {
    for to in [
        "https://evil.example/404.html",
        "ipfs://bafyotherroot/404.html",
        "//evil.example/404.html",
        "relative.html",
        "/../bafyotherroot/404.html",
    ] {
        let parsed = rules(&format!("/* {to} 404\n"));
        let got = match_fallback(&parsed, "/unknown");
        assert!(
            matches!(got, Some(Err(RedirectsError::OffRootTarget { .. }))),
            "`{to}` must be refused as off-root, got: {got:?}"
        );
    }
}

#[test]
fn an_off_root_escape_hidden_in_a_capture_is_refused_too() {
    let parsed = rules("/x/* /assets/:splat 200\n");
    let got = match_fallback(&parsed, "/x/../../etc/passwd");
    assert!(
        matches!(got, Some(Err(RedirectsError::OffRootTarget { .. })))
            || matches!(
                got,
                Some(Ok(FallbackAction::Serve { ref path, .. })) if !path.contains("..")
            ),
        "a capture may never escape the root, got: {got:?}"
    );
}

#[test]
fn a_target_query_string_is_dropped_from_the_dag_path() {
    let parsed = rules("/s/:code /target.html?code=:code 200\n");
    assert_eq!(
        match_fallback(&parsed, "/s/42"),
        Some(Ok(FallbackAction::Serve { path: "/target.html".into(), status: 200 }))
    );
}

#[test]
fn a_matching_3xx_rule_is_refused_with_its_reason_not_silently_skipped() {
    for status in [301u16, 302, 303, 307, 308] {
        let parsed = rules(&format!("/old/* /new/:splat {status}\n/* /404.html 404\n"));
        assert_eq!(
            match_fallback(&parsed, "/old/thing"),
            Some(Err(RedirectsError::RedirectNotSupported { status, to: "/new/thing".into() }))
        );
    }
}

#[test]
fn the_410_and_451_error_page_statuses_are_served_like_the_404_one() {
    let parsed = rules("/gone/* /410.html 410\n/unavail/* /451.html 451\n");
    assert_eq!(
        match_fallback(&parsed, "/gone/x"),
        Some(Ok(FallbackAction::Serve { path: "/410.html".into(), status: 410 }))
    );
    assert_eq!(
        match_fallback(&parsed, "/unavail/x"),
        Some(Ok(FallbackAction::Serve { path: "/451.html".into(), status: 451 }))
    );
}

#[test]
fn each_bad_line_names_its_line_number_and_reason() {
    assert_eq!(
        parse_redirects(b"/a /b\n\n/only\n"),
        Err(RedirectsError::InvalidLine {
            line: 3,
            reason: "expected `from to [status]`, got 1 fields".to_string()
        })
    );
    assert_eq!(
        parse_redirects(b"/a /b 999"),
        Err(RedirectsError::InvalidLine {
            line: 1,
            reason: "status 999 is not one of [200, 301, 302, 303, 307, 308, 404, 410, 451]"
                .to_string()
        })
    );
    assert_eq!(
        parse_redirects(b"/a /b nope"),
        Err(RedirectsError::InvalidLine {
            line: 1,
            reason: "`nope` is not an http status code".to_string()
        })
    );
    assert_eq!(
        parse_redirects(b"a /b"),
        Err(RedirectsError::InvalidLine {
            line: 1,
            reason: "`from` must be a root-relative path, got `a`".to_string()
        })
    );
    assert_eq!(
        parse_redirects(b"/:x/:y/:x /b"),
        Err(RedirectsError::InvalidLine {
            line: 1,
            reason: "placeholder `:x` is used more than once in `from`".to_string()
        })
    );
    assert_eq!(parse_redirects(&[0xff, 0xfe]), Err(RedirectsError::NotText));
    assert_eq!(rules("/a /b +200")[0].status, 200);
    assert!(parse_redirects(b"/a /b 70000").is_err());
}

#[test]
fn dot_segments_resolve_and_a_colon_without_capture_is_kept() {
    let parsed = rules("/* /a/./b/../c.html 200\n/x /y 200\n");
    assert_eq!(
        match_fallback(&parsed, "/anything"),
        Some(Ok(FallbackAction::Serve { path: "/a/c.html".into(), status: 200 }))
    );
    let kept = rules("/k/:id /p/:other/:id#frag 200\n");
    assert_eq!(
        match_fallback(&kept, "/k/7"),
        Some(Ok(FallbackAction::Serve { path: "/p/:other/7".into(), status: 200 }))
    );
}

#[test]
fn every_refusal_reads_as_a_legible_sentence() {
    assert_eq!(
        RedirectsError::TooLarge { size: 70000 }.message(),
        "_redirects is 70000 bytes, over the 65536 byte limit"
    );
    assert_eq!(RedirectsError::NotText.message(), "_redirects is not valid utf-8 text");
    assert_eq!(
        RedirectsError::InvalidLine { line: 3, reason: "bad".to_string() }.message(),
        "_redirects line 3: bad"
    );
    assert!(RedirectsError::OffRootTarget { to: "https://evil/".to_string() }
        .message()
        .starts_with("_redirects target `https://evil/` leaves the site's root cid"));
    assert_eq!(
        RedirectsError::RedirectNotSupported { status: 301, to: "/new".to_string() }.message(),
        "_redirects rule asks for a 301 redirect to `/new`, which werust does not follow yet"
    );
}
