use pet_render::sprite::pet_dir::{candidates, resolve_pet_dir, PetEnv};

fn env() -> PetEnv {
    PetEnv {
        skin: None,
        default_asset: None,
        config_home: None,
        data_home: None,
        data_dirs: None,
        home: Some("/home/u".into()),
    }
}

#[test]
fn default_places_come_in_order() {
    let e = PetEnv { default_asset: Some("assets/pet".into()), ..env() };
    assert_eq!(
        candidates(&e),
        vec![
            "/home/u/.local/share/agent-pet/default-pet",
            "/usr/local/share/agent-pet/default-pet",
            "/usr/share/agent-pet/default-pet",
            "assets/pet",
        ]
    );
    assert_eq!(
        resolve_pet_dir(&e, &[false, false, true, true]).unwrap(),
        "/usr/share/agent-pet/default-pet"
    );
    assert_eq!(resolve_pet_dir(&e, &[false, false, false, true]).unwrap(), "assets/pet");
    assert_eq!(
        resolve_pet_dir(&e, &[false; 4]).unwrap_err().message(),
        "no pet asset found (install the default pet or set AGENT_PET_DEFAULT_ASSET)"
    );
}

#[test]
fn data_dirs_skip_empty_parts() {
    let e = PetEnv {
        data_home: Some("/d/".into()),
        data_dirs: Some(":/a::/b:".into()),
        home: None,
        ..env()
    };
    assert_eq!(
        candidates(&e),
        vec!["/d/agent-pet/default-pet", "/a/agent-pet/default-pet", "/b/agent-pet/default-pet"]
    );
}

#[test]
fn skins_are_names_or_paths() {
    let named = PetEnv { skin: Some("fox".into()), ..env() };
    assert_eq!(candidates(&named), vec!["/home/u/.config/agent-pet/pets/fox"]);
    assert_eq!(
        resolve_pet_dir(&named, &[false]).unwrap_err().message(),
        "AGENT_PET_SKIN=fox has no pet.json at /home/u/.config/agent-pet/pets/fox"
    );
    let path = PetEnv { skin: Some("./fox".into()), ..env() };
    assert_eq!(resolve_pet_dir(&path, &[true]).unwrap(), "./fox");
    let homeless = PetEnv { skin: Some("fox".into()), home: None, ..env() };
    assert_eq!(candidates(&homeless), vec!["/.config/agent-pet/pets/fox"]);
    let configured = PetEnv { skin: Some("fox".into()), config_home: Some("/c".into()), ..env() };
    assert_eq!(candidates(&configured), vec!["/c/agent-pet/pets/fox"]);
}
