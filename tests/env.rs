use gw2_overlay::env::{get_env_val, parse_environment, plan_helper_launch, remove_from_env};
use gw2_overlay::text::asset_path;

fn entries(v: &[&str]) -> Vec<String> {
    v.iter().map(|s| s.to_string()).collect()
}

#[test]
fn env_value_of_first_matching_entry() {
    let list = entries(&["A=1", "WINEPREFIX=/p", "NOSEP", "WINE=/usr/bin/wine", "WINE=other"]);
    assert_eq!(get_env_val(list.clone(), "WINE"), "/usr/bin/wine");
    assert_eq!(get_env_val(list.clone(), "WINEPREFIX"), "/p");
    assert_eq!(get_env_val(list.clone(), "NOSEP"), "");
    assert_eq!(get_env_val(list, "MISSING"), "");
}

#[test]
fn env_value_keeps_later_separators() {
    assert_eq!(get_env_val(entries(&["X=a=b"]), "X"), "a=b");
    assert_eq!(get_env_val(entries(&["=v"]), ""), "v");
    assert_eq!(get_env_val(Vec::new(), "X"), "");
}

#[test]
fn listed_keys_are_removed() {
    let env = vec![
        ("WINE".to_string(), "wine".to_string()),
        ("LD_PRELOAD".to_string(), "x.so".to_string()),
        ("HOME".to_string(), "/h".to_string()),
        ("WINESERVERSOCKET".to_string(), "3".to_string()),
    ];
    let kept = remove_from_env(env, vec!["WINESERVERSOCKET", "LD_PRELOAD", "WINELOADERNOEXEC"]);
    assert_eq!(
        kept,
        vec![("WINE".to_string(), "wine".to_string()), ("HOME".to_string(), "/h".to_string())]
    );
    assert!(remove_from_env(Vec::new(), vec!["A"]).is_empty());
}

#[test]
fn environment_block_is_parsed() {
    let env = parse_environment("A=1\0WINE=/opt/wine\0NOSEP\0A=2\0B=x=y\0");
    assert_eq!(
        env,
        vec![
            ("WINE".to_string(), "/opt/wine".to_string()),
            ("A".to_string(), "2".to_string()),
            ("B".to_string(), "x=y".to_string()),
        ]
    );
    assert!(parse_environment("").is_empty());
}

#[test]
fn helper_launch_uses_game_wine() {
    let env = parse_environment("WINE=/opt/wine\0WINEPREFIX=/games/gw2\0LD_PRELOAD=a.so\0WINESERVERSOCKET=5\0HOME=/h");
    let plan = plan_helper_launch(env, "/tmp/mumble.exe").unwrap();
    assert_eq!(plan.program, "/opt/wine");
    assert_eq!(plan.prefix, "/games/gw2");
    assert_eq!(
        plan.env,
        vec![
            ("WINE".to_string(), "/opt/wine".to_string()),
            ("WINEPREFIX".to_string(), "/games/gw2".to_string()),
            ("HOME".to_string(), "/h".to_string()),
        ]
    );
}

#[test]
fn helper_launch_defaults() {
    let plan = plan_helper_launch(Vec::new(), "/tmp/mumble.exe").unwrap();
    assert_eq!(plan.program, "wine");
    assert_eq!(plan.prefix, "~/.wine");
    assert!(plan.env.is_empty());
    assert!(plan_helper_launch(Vec::new(), "").is_none());
}

#[test]
fn asset_paths_use_slashes() {
    assert_eq!(asset_path(r"Data\Karkasymbol.png"), "Data/Karkasymbol.png");
    assert_eq!(asset_path("a/b"), "a/b");
}
