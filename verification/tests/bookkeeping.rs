use fusion::window::{surface_size, SizeError};
use fusion::compositor::{locate_window, WindowLocation};
use fusion::input::{move_grab_should_end, FocusChange, KeyAction, BTN_LEFT};
use fusion::packaging::{build_mode, BuildEnvironment, ConfigEntry, OutputTarget};
use fusion::protocol::{plugin_table_header, plugin_table_row, CompositorRequest, FrameReader, Plugin, PingRequest, RestartPluginRequest};
use fusion::resource::{Handle, ResourceId, TypedResourceStorage};

#[test]
fn storage_read_after_add() {
    let mut s = TypedResourceStorage::new();
    let a = s.add("a.png".to_string(), 10);
    let b = s.add("b.png".to_string(), 20);
    assert_ne!(a, b);
    assert_eq!(s.get_resource_id_by_path("a.png"), Some(a));
    assert_eq!(s.get_resource(b), Some(20));
    assert_eq!(s.get_loaded(a), 10);
    assert_eq!(s.get_resource_id_by_path("c.png"), None);
}

#[test]
fn storage_remove_undoes_add() {
    let mut s = TypedResourceStorage::new();
    let keep = s.add("keep".to_string(), 1);
    let id = s.add("gone".to_string(), 2);
    s.remove(id);
    assert_eq!(s.get_resource(id), None);
    assert_eq!(s.get_resource_id_by_path("gone"), None);
    assert_eq!(s.get_resource(keep), Some(1));
    let again = s.add("gone".to_string(), 3);
    assert_ne!(again, id);
    assert_eq!(s.get_resource(id), None);
    assert_eq!(s.get_resource_id_by_path("gone"), Some(again));
}

#[test]
fn storage_path_reloaded_points_at_new_id() {
    let mut s = TypedResourceStorage::new();
    let first = s.add("x".to_string(), 1);
    let second = s.add("x".to_string(), 2);
    assert_eq!(s.get_resource_id_by_path("x"), Some(second));
    assert_eq!(s.get_resource(first), Some(1));
}

#[test]
fn handles_keep_their_id() {
    let id = ResourceId::from_ffi(5);
    assert_eq!(id.as_ffi(), 5 | (1u64 << 32));
    let h: Handle<u8> = Handle::new(id);
    assert_eq!(h.id(), id);
    assert_eq!(h.clone().id(), id);
}

#[test]
fn key_and_focus_decisions() {
    assert_eq!(KeyAction::for_key(9, false), KeyAction::Exit);
    assert_eq!(KeyAction::for_key(9, true), KeyAction::Exit);
    assert_eq!(KeyAction::for_key(10, true), KeyAction::SpawnTerminal);
    assert_eq!(KeyAction::for_key(10, false), KeyAction::Forward);
    assert_eq!(FocusChange::for_button(true, false, true), FocusChange::FocusWindowUnder);
    assert_eq!(FocusChange::for_button(true, false, false), FocusChange::ClearFocus);
    assert_eq!(FocusChange::for_button(true, true, true), FocusChange::Keep);
    assert_eq!(FocusChange::for_button(false, false, true), FocusChange::Keep);
    assert!(move_grab_should_end(&[0x111]));
    assert!(!move_grab_should_end(&[0x111, BTN_LEFT]));
    assert!(move_grab_should_end(&[]));
}

#[test]
fn windows_found_requested_first() {
    assert_eq!(locate_window(&[3, 7], &[7], 7), WindowLocation::Requested(1));
    assert_eq!(locate_window(&[3], &[5, 7, 7], 7), WindowLocation::Open(1));
    assert_eq!(locate_window(&[], &[], 1), WindowLocation::Missing);
}

#[test]
fn packaging_decisions() {
    assert_eq!(OutputTarget::from_argument(Some("../out".to_string())), OutputTarget::UnderRoot("../out".to_string()));
    assert_eq!(OutputTarget::from_argument(Some("./out".to_string())), OutputTarget::Root);
    assert_eq!(OutputTarget::from_argument(Some("/tmp/out".to_string())), OutputTarget::Given("/tmp/out".to_string()));
    assert_eq!(OutputTarget::from_argument(None), OutputTarget::CargoTargetDir);
    assert_eq!(build_mode(true), "release");
    assert_eq!(build_mode(false), "debug");
    let env = BuildEnvironment { manifest: String::new(), config: String::new(), wasm: String::new(), output: String::new(), is_release: true };
    assert_eq!(env.cargo_flags(), Some("--release"));
    let dbg = BuildEnvironment { is_release: false, ..env };
    assert_eq!(dbg.cargo_flags(), None);
    assert_eq!(ConfigEntry::classify(true, "a.toml"), ConfigEntry::File);
    assert_eq!(ConfigEntry::classify(false, "sub"), ConfigEntry::Directory);
    assert_eq!(ConfigEntry::classify(false, ""), ConfigEntry::Skip);
}

#[test]
fn protocol_rows_and_frames() {
    assert_eq!(plugin_table_header(), vec!["Name", "Id", "Status", "Version"]);
    let p = Plugin { id: "i".into(), name: "n".into(), status: "s".into(), version: "v".into() };
    assert_eq!(plugin_table_row(&p), vec!["n", "i", "s", "v"]);
    let mut r = FrameReader::new();
    assert!(!r.push_byte(4));
    assert!(!r.push_byte(2));
    assert!(r.push_byte(0));
    assert_eq!(r.into_bytes(), vec![4, 2]);
    assert!(matches!(CompositorRequest::from(PingRequest), CompositorRequest::Ping(_)));
    let req: CompositorRequest = RestartPluginRequest { plugin_id: "x".into() }.into();
    assert!(matches!(req, CompositorRequest::RestartPlugin(ref r) if r.plugin_id == "x"));
}

#[test]
fn storage_len_and_replace() {
    let mut s = TypedResourceStorage::new();
    assert_eq!(s.len(), 0);
    let a = s.add("a".to_string(), 7);
    let b = s.add("b".to_string(), 8);
    assert_eq!(s.len(), 2);
    assert_eq!(s.replace_resource(a, 70), Some(7));
    assert_eq!(s.get_resource(a), Some(70));
    assert_eq!(s.get_resource(b), Some(8));
    assert_eq!(s.get_resource_id_by_path("a"), Some(a));
    s.remove(b);
    assert_eq!(s.len(), 1);
    assert_eq!(s.replace_resource(b, 80), None);
    assert_eq!(s.get_resource(b), None);
    assert_eq!(s.len(), 1);
}

#[test]
fn surface_sizes() {
    assert_eq!(surface_size(800, 600), Ok((800, 600)));
    assert_eq!(surface_size(0, 0), Ok((0, 0)));
    assert_eq!(surface_size(-1, 600), Err(SizeError::NegativeWidth(-1)));
    assert_eq!(surface_size(-3, -4), Err(SizeError::NegativeWidth(-3)));
    assert_eq!(surface_size(10, -4), Err(SizeError::NegativeHeight(-4)));
}
