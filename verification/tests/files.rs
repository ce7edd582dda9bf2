use cleo::files::loader::{find_absolute_path, forward_slashes, PathSwaps};
use cleo::files::res::{
    cleo_dir_path, extension, get_documents_path, get_log_path, shaders_path, ModRes,
};

#[test]
fn swaps_replace_game_files() {
    let mut swaps = PathSwaps::new();
    assert_eq!(swaps.swap_path("/game/a.dat"), "/game/a.dat");
    swaps.load_replacement("/game/a.dat", "/cleo/Replace/a.dat".to_string());
    assert_eq!(swaps.swap_path("/game/a.dat"), "/cleo/Replace/a.dat");
    assert_eq!(swaps.swap_path("/game/b.dat"), "/game/b.dat");
    swaps.load_replacement("/game/a.dat", "/cleo/other".to_string());
    assert_eq!(swaps.swap_path("/game/a.dat"), "/cleo/other");
    assert_eq!(swaps.swaps.len(), 1);
}

#[test]
fn absolute_paths() {
    let mut swaps = PathSwaps::new();
    assert_eq!(forward_slashes("data\\maps\\x.ipl"), "data/maps/x.ipl");
    assert_eq!(
        find_absolute_path(&swaps, Some("/app/GTA.app"), "DATA\\GTA.DAT"),
        Some("/app/GTA.app/GTA.DAT".to_string())
    );
    swaps.load_replacement("/app/GTA.app/GTA.DAT", "/docs/CLEO/Replace/GTA.DAT".to_string());
    assert_eq!(
        find_absolute_path(&swaps, Some("/app/GTA.app"), "data/GTA.DAT"),
        Some("/docs/CLEO/Replace/GTA.DAT".to_string())
    );
    assert_eq!(find_absolute_path(&swaps, None, "data/GTA.DAT"), None);
    assert_eq!(find_absolute_path(&swaps, Some("/app"), "data/.."), None);
}

fn parts(p: &[&str]) -> Option<Vec<String>> {
    Some(p.iter().map(|s| s.to_string()).collect())
}

fn kind(r: Option<ModRes>) -> Option<(u8, String)> {
    r.map(|r| match r {
        ModRes::RunningScript(_) => (0, String::new()),
        ModRes::LazyScript(_) => (1, String::new()),
        ModRes::JsScript(_) => (2, String::new()),
        ModRes::KeyValFile(_) => (3, String::new()),
        ModRes::ArchSwap(a, _) => (4, a),
        ModRes::Swap(_) => (5, String::new()),
    })
}

#[test]
fn resources_classified() {
    let p = "/docs/CLEO/x".to_string();
    assert_eq!(kind(ModRes::from_path(p.clone(), parts(&["walk.CSA"]), false, true)), Some((0, String::new())));
    assert_eq!(kind(ModRes::from_path(p.clone(), parts(&["menu.csi"]), false, true)), Some((1, String::new())));
    assert_eq!(kind(ModRes::from_path(p.clone(), parts(&["a.js"]), false, true)), Some((2, String::new())));
    assert_eq!(kind(ModRes::from_path(p.clone(), parts(&["t.fxt"]), false, true)), Some((3, String::new())));
    assert_eq!(kind(ModRes::from_path(p.clone(), parts(&["Replace", "gta.dat"]), false, true)), Some((5, String::new())));
    assert_eq!(kind(ModRes::from_path(p.clone(), parts(&["GTA3.IMG", "player.dff"]), false, true)), Some((4, "gta3.img".to_string())));
    assert_eq!(kind(ModRes::from_path(p.clone(), parts(&["gta3.img", "put files to go inside gta3.img here"]), false, true)), None);
    assert_eq!(kind(ModRes::from_path(p.clone(), parts(&["notes.txt"]), false, true)), None);
    assert_eq!(kind(ModRes::from_path(p.clone(), parts(&["noext"]), false, true)), None);
    assert_eq!(kind(ModRes::from_path(p.clone(), parts(&["dir.csa"]), true, false)), None);
    assert_eq!(kind(ModRes::from_path(p.clone(), None, false, true)), None);
    match ModRes::from_path(p.clone(), parts(&["walk.csa"]), false, true) {
        Some(ModRes::RunningScript(path)) => assert_eq!(path, p),
        _ => panic!(),
    }
}

#[test]
fn extensions() {
    assert_eq!(extension("a.csa"), Some("csa".to_string()));
    assert_eq!(extension("a.b.c"), Some("c".to_string()));
    assert_eq!(extension(".hidden"), None);
    assert_eq!(extension("plain"), None);
    assert_eq!(extension("end."), Some(String::new()));
}

#[test]
fn documents_lie_beside_the_temporary_folder() {
    let tmp = "/var/mobile/Containers/Data/Application/ABC/tmp/";
    assert_eq!(
        get_documents_path(tmp, "CLEO"),
        "/var/mobile/Containers/Data/Application/ABC/Documents/CLEO"
    );
    assert_eq!(cleo_dir_path("/app/tmp"), "/app/Documents/CLEO");
    assert_eq!(get_log_path("/app/tmp"), "/app/Documents/CLEO/cleo.log");
    assert_eq!(shaders_path("/app/tmp"), "/app/Documents/shaders");
}

#[test]
fn resources_classified_by_their_place_in_the_cleo_folder() {
    let dir = "/app/Documents/CLEO";
    let r = ModRes::in_cleo_dir(format!("{}/gta3.img/car.dff", dir), dir, false, true);
    assert!(matches!(r, Some(ModRes::ArchSwap(ref a, _)) if a == "gta3.img"));
    let r = ModRes::in_cleo_dir(format!("{}/Replace/x.cfg", dir), dir, false, true);
    assert!(matches!(r, Some(ModRes::Swap(_))));
    assert!(ModRes::in_cleo_dir("/elsewhere/a.csa".to_string(), dir, false, true).is_none());
    assert!(matches!(
        ModRes::in_cleo_dir(format!("{}/walk.csa", dir), dir, false, true),
        Some(ModRes::RunningScript(_))
    ));
}
