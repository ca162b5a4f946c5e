use pet_render::proto::AgentState;
use pet_render::sprite::animation::{Animation, AnimationMap, Frame};
use pet_render::sprite::pet_json::PetDef;
use pet_render::sprite::semantics::track_for;

fn pet_with(tracks: &[&str]) -> PetDef {
    let mut animations = AnimationMap::new();
    for name in tracks {
        animations.insert(
            name.to_string(),
            Animation {
                frames: vec![Frame { sprite_index: 0, duration_ms: 100 }],
                loop_start: Some(0),
                fallback: "idle".into(),
            },
        );
    }
    PetDef {
        id: "t".into(),
        spritesheet_path: String::new(),
        frame_width: 1,
        frame_height: 1,
        columns: 8,
        rows: 9,
        animations,
    }
}

#[test]
fn maps_states_to_their_tracks() {
    let pet = pet_with(&["idle", "running", "waiting", "review", "failed"]);
    assert_eq!(track_for(AgentState::Running, &pet), "running");
    assert_eq!(track_for(AgentState::Waiting, &pet), "waiting");
    assert_eq!(track_for(AgentState::Ready, &pet), "review");
    assert_eq!(track_for(AgentState::Failed, &pet), "failed");
    assert_eq!(track_for(AgentState::Idle, &pet), "idle");
    assert_eq!(track_for(AgentState::Gone, &pet), "idle");
}

#[test]
fn missing_track_degrades_to_idle() {
    let pet = pet_with(&["idle", "running"]);
    assert_eq!(track_for(AgentState::Waiting, &pet), "idle");
    assert_eq!(track_for(AgentState::Running, &pet), "running");
}

#[test]
fn animation_map_keeps_one_entry_per_name() {
    let mut map = AnimationMap::new();
    let one = |i: usize| Animation {
        frames: vec![Frame { sprite_index: i, duration_ms: 1 }],
        loop_start: None,
        fallback: "idle".into(),
    };
    map.insert("a".into(), one(1));
    map.insert("b".into(), one(2));
    map.insert("a".into(), one(3));
    assert_eq!(map.len(), 2);
    assert_eq!(map.name_at(0), "a");
    assert_eq!(map.at(0).frames[0].sprite_index, 3);
    assert_eq!(map.get("b"), Some(&one(2)));
    assert!(map.get("c").is_none());
    assert_eq!(map.clone().get("a"), Some(&one(3)));
}
