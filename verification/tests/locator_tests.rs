use gmod::locator::Mode;
use gmod::locator::OpenSequence;
use gmod::locator::candidate_paths;
use gmod::locator::lua_shared_candidates;
use gmod::locator::tier0_candidates;
use gmod::platform::Os;
use gmod::platform::PointerWidth;

fn all_combos() -> Vec<(Os, PointerWidth, Mode)> {
    let mut v = Vec::new();
    for os in [Os::Windows, Os::Linux, Os::MacOs] {
        for width in [PointerWidth::W32, PointerWidth::W64] {
            for mode in [Mode::Generic, Mode::Server] {
                v.push((os, width, mode));
            }
        }
    }
    v
}

#[test]
fn candidate_lists_are_nonempty_for_every_combo() {
    for (os, width, mode) in all_combos() {
        let paths = candidate_paths(os, width, mode, "engine");
        assert!(paths.len() >= 1, "empty candidate list");
    }
}

#[test]
fn candidate_order_is_deterministic() {
    for (os, width, mode) in all_combos() {
        let a = candidate_paths(os, width, mode, "engine");
        let b = candidate_paths(os, width, mode, "engine");
        assert_eq!(a, b);
    }
}

#[test]
fn win64_candidates_exact() {
    let paths = candidate_paths(Os::Windows, PointerWidth::W64, Mode::Generic, "engine");
    assert_eq!(paths, vec!["bin/win64/engine.dll".to_string(), "engine".to_string()]);
}

#[test]
fn linux32_server_candidates_prefer_server_names() {
    let paths = candidate_paths(Os::Linux, PointerWidth::W32, Mode::Server, "engine");
    let expected = vec![
        "bin/linux32/engine.so",
        "bin/linux32/libengine.so",
        "bin/engine_srv.so",
        "bin/libengine_srv.so",
        "garrysmod/bin/engine_srv.so",
        "garrysmod/bin/libengine_srv.so",
        "bin/engine.so",
        "bin/libengine.so",
        "garrysmod/bin/engine.so",
        "garrysmod/bin/libengine.so",
        "engine",
    ];
    let got: Vec<&str> = paths.iter().map(|s| s.as_str()).collect();
    assert_eq!(got, expected);
}

#[test]
fn linux32_generic_candidates_prefer_plain_names() {
    let paths = candidate_paths(Os::Linux, PointerWidth::W32, Mode::Generic, "engine");
    let got: Vec<&str> = paths.iter().map(|s| s.as_str()).collect();
    assert_eq!(got[2], "bin/engine.so");
    assert_eq!(got[6], "bin/engine_srv.so");
    assert_eq!(got.len(), 11);
}

#[test]
fn macos_candidates_start_with_signed_bundle() {
    let paths = candidate_paths(Os::MacOs, PointerWidth::W64, Mode::Generic, "engine");
    assert_eq!(paths[0], "GarrysMod_Signed.app/Contents/MacOS/engine.dylib");
    assert_eq!(paths[1], "GarrysMod_Signed.app/Contents/MacOS/libengine.dylib");
    assert_eq!(paths.len(), 11);
}

#[test]
fn lua_shared_candidates_exact() {
    let win64 = lua_shared_candidates(Os::Windows, PointerWidth::W64);
    assert_eq!(win64, vec!["bin/win64/lua_shared.dll".to_string()]);
    let linux32 = lua_shared_candidates(Os::Linux, PointerWidth::W32);
    assert_eq!(
        linux32,
        vec![
            "garrysmod/bin/lua_shared_srv.so".to_string(),
            "bin/linux32/lua_shared.so".to_string(),
            "garrysmod/bin/lua_shared.so".to_string(),
        ]
    );
}

#[test]
fn tier0_candidates_exact() {
    let linux32 = tier0_candidates(Os::Linux, PointerWidth::W32);
    assert_eq!(
        linux32,
        vec!["bin/libtier0_srv.so".to_string(), "bin/linux32/libtier0.so".to_string()]
    );
}

#[test]
fn open_sequence_aggregates_every_failure_keyed_by_path() {
    let candidates = candidate_paths(Os::Windows, PointerWidth::W64, Mode::Generic, "engine");
    let total = candidates.len();
    let mut seq = OpenSequence::new(candidates);
    let mut attempts = Vec::new();
    while let Some(path) = seq.current() {
        attempts.push(path.clone());
        let msg = format!("cannot open {}", path);
        seq.fail(msg);
    }
    let errs = seq.into_errors();
    assert_eq!(errs.0.len(), total);
    assert_eq!(errs.0[0].0, attempts[0]);
    assert_eq!(errs.0[1].0, attempts[1]);
    assert_eq!(errs.0[0].1, "cannot open bin/win64/engine.dll");
    let text = errs.message();
    assert!(text.starts_with('\n'));
    assert!(text.contains("bin/win64/engine.dll = cannot open bin/win64/engine.dll\n"));
    assert!(text.ends_with('\n'));
}

#[test]
fn open_sequence_stops_at_first_success() {
    let candidates = candidate_paths(Os::Windows, PointerWidth::W64, Mode::Generic, "engine");
    let mut seq = OpenSequence::new(candidates);
    let first = seq.current().unwrap().clone();
    assert_eq!(first, "bin/win64/engine.dll");
    seq.fail("missing".to_string());
    let second = seq.current().unwrap().clone();
    assert_eq!(second, "engine");
}
