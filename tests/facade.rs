use asset_redirect::overlay::{get_custom_hbui_assets, load_custom_hbui_folder, plan_open, OpenPlan, OverlayIndex, OverlayState};
use asset_redirect::registry::Registry;
use asset_redirect::route::RedirectRule;
use asset_redirect::virtual_asset::{VirtualAsset, SEEK_CUR, SEEK_END, SEEK_SET};

fn b(s: &str) -> Vec<u8> {
    s.as_bytes().to_vec()
}

fn rules() -> Vec<RedirectRule> {
    vec![RedirectRule { source: b("gui/dist/hbui/"), destination: b("hbui/") }]
}

#[test]
fn unregistered_handle_is_left_to_native() {
    let mut r = Registry::new();
    r.insert(1, b("abc"));
    assert_eq!(r.len(7), None);
    assert_eq!(r.remaining(7), None);
    assert_eq!(r.seek(7, 0, SEEK_SET), None);
    assert_eq!(r.read(7, 4), None);
    assert_eq!(r.open_fd(7), None);
    assert_eq!(r.is_allocated(7), None);
    assert!(!r.close(7));
    assert_eq!(r.len(1), Some(3));
}

#[test]
fn overlay_file_reads_back_whole() {
    let mut idx = OverlayIndex::new();
    idx.insert(b("foo.png"), vec![1, 2, 3, 4]);
    let state = OverlayState::Uninitialized.finish(Some(idx));
    let plan = plan_open(&b("assets/gui/foo.png"), &b("assets/"), &b("gui/"), &state, &rules());
    let data = match plan {
        OpenPlan::Overlay(d) => d,
        _ => panic!("expected overlay"),
    };
    let mut r = Registry::new();
    r.insert(42, data);
    assert_eq!(r.len(42), Some(4));
    assert_eq!(r.read(42, 4), Some(vec![1, 2, 3, 4]));
    assert_eq!(r.remaining(42), Some(0));
    assert!(r.close(42));
    assert!(!r.contains(42));
}

#[test]
fn seek_semantics() {
    let mut a = VirtualAsset::new(vec![9; 10]);
    for k in 0..=10i64 {
        assert_eq!(a.seek(k, SEEK_SET), k);
    }
    assert_eq!(a.seek(-10, SEEK_END), 0);
    assert_eq!(a.seek(11, SEEK_SET), -1);
    assert_eq!(a.pos, 0);
    assert_eq!(a.seek(3, SEEK_CUR), 3);
    assert_eq!(a.seek(-4, SEEK_CUR), -1);
    assert_eq!(a.seek(0, 7), -1);
    assert_eq!(a.seek(-1, SEEK_SET), -1);
    assert_eq!(a.seek(i64::MAX, SEEK_END), -1);
    assert_eq!(a.read(100), vec![9; 7]);
    assert_eq!(a.remaining(), 0);
}

#[test]
fn handles_do_not_share_buffers() {
    let mut r = Registry::new();
    r.insert(1, b("aaaa"));
    r.insert(2, b("bb"));
    assert_eq!(r.read(1, 2), Some(b("aa")));
    assert_eq!(r.read(2, 10), Some(b("bb")));
    assert_eq!(r.read(1, 10), Some(b("aa")));
    assert!(r.close(2));
    assert_eq!(r.len(1), Some(4));
}

#[test]
fn failed_scan_is_final() {
    let s = OverlayState::Uninitialized;
    assert!(s.needs_scan());
    let s = s.finish(None);
    assert!(!s.needs_scan());
    let mut idx = OverlayIndex::new();
    idx.insert(b("x"), b("y"));
    let s = s.finish(Some(idx));
    assert!(matches!(s, OverlayState::Failed));
}

#[test]
fn redirect_rule_gives_destination() {
    let state = OverlayState::Failed;
    let plan = plan_open(&b("assets/gui/dist/hbui/X"), &b("assets/"), &b("gui/"), &state, &rules());
    let dest = match plan {
        OpenPlan::Redirect(d) => d,
        _ => panic!("expected redirect"),
    };
    assert_eq!(dest, b("hbui/X"));
    let mut r = Registry::new();
    r.insert(5, b("loaded"));
    assert_eq!(r.read(5, 64), Some(b("loaded")));
    let plan = plan_open(&b("assets/textures/a.png"), &b("assets/"), &b("gui/"), &state, &rules());
    assert!(matches!(plan, OpenPlan::Passthrough));
}

#[test]
fn overlay_lookup_last_insert_wins() {
    let mut idx = OverlayIndex::new();
    idx.insert(b("k"), b("old"));
    idx.insert(b("k"), b("new"));
    assert_eq!(idx.get(&b("k")), Some(b("new")));
    assert_eq!(idx.get(&b("z")), None);
}

#[test]
fn scan_builds_normalized_index() {
    assert!(load_custom_hbui_folder(false, vec![(b("a"), b("1"))]).is_none());
    let idx = load_custom_hbui_folder(true, vec![(b("sub\\bar.png"), b("xy")), (b("foo.png"), b("z"))]).unwrap();
    assert_eq!(idx.get(&b("sub/bar.png")), Some(b("xy")));
    assert_eq!(idx.get(&b("sub\\bar.png")), None);
    let state = OverlayState::Uninitialized.finish(Some(idx));
    assert_eq!(get_custom_hbui_assets(&state).unwrap().get(&b("foo.png")), Some(b("z")));
    assert!(get_custom_hbui_assets(&OverlayState::Failed).is_none());
}
