use dreadstep_bevy::assets::{
    build_manifest, crate_local_media_directory, is_crate_local_media_path,
    PresentationAssetManifest, PresentationAssetReference, SceneRenderPlaceholder,
};
use dreadstep_bevy::audio::{
    audio_asset_path, build_audio_manifest, PresentationAudioAssetProjection, PresentationAudioCue,
    PresentationAudioCues,
};
use dreadstep_bevy::events::Event;
use dreadstep_bevy::{ActorId, Position};

fn placeholder_manifest_case() {
    let manifest = build_manifest().expect("showcase manifest validates");
    assert_eq!(manifest.bindings().len(), 6);
    assert!(manifest
        .bindings()
        .iter()
        .all(|(_, reference)| reference.path().starts_with("assets/dreadstep/")));
}

#[test]
fn desktop_manifest_contains_all_independent_placeholder_families() {
    placeholder_manifest_case();
}

#[test]
fn tests_manifest_contains_all_independent_placeholder_families() {
    placeholder_manifest_case();
}

fn audio_manifest_case() {
    let manifest = build_audio_manifest().expect("audio manifest validates");
    assert_eq!(manifest.bindings().len(), 8);
    for (_, reference) in manifest.bindings() {
        assert!(reference.path().starts_with("assets/audio/dreadstep/"));
        assert_eq!(
            audio_asset_path(reference.path()),
            Some(reference.path().trim_start_matches("assets/"))
        );
    }
    assert_eq!(audio_asset_path("audio/root.ogg"), None);
    assert_eq!(audio_asset_path("crates/dreadstep-bevy/audio/local.ogg"), None);
}

#[test]
fn desktop_audio_manifest_and_asset_paths_are_complete_and_normalized() {
    audio_manifest_case();
}

#[test]
fn tests_audio_manifest_and_asset_paths_are_complete_and_normalized() {
    audio_manifest_case();
}

#[test]
fn asset_reference_rejects_traversal_and_unrooted_paths() {
    for bad in [
        "",
        "assets",
        "assets/",
        "assets//a.png",
        "assets/../a.png",
        "assets/./a.png",
        "/assets/a.png",
        "assets\\a.png",
        "assets/a:b.png",
        ":assets/a.png",
        "assets/a\0.png",
        "images/a.png",
        "crates/x/images/a.png",
        "crates/x/assets",
    ] {
        assert!(PresentationAssetReference::new(bad).is_none(), "{bad:?}");
    }
    for good in [
        "assets/a.png",
        "art/x/y.png",
        "audio/a.ogg",
        "crates/dreadstep-bevy/audio/local.ogg",
        "crates/x/art/a.png",
        "assets/..a/b.png",
    ] {
        let reference = PresentationAssetReference::new(good).expect("valid path");
        assert_eq!(reference.path(), good);
    }
}

#[test]
fn crate_local_media_directory_reads_the_second_segment() {
    assert_eq!(crate_local_media_directory("crates/a/audio/x.ogg"), Some("audio"));
    assert_eq!(crate_local_media_directory("crates/a/audio"), None);
    assert_eq!(crate_local_media_directory("crates/a/audio/"), Some("audio"));
    assert_eq!(crate_local_media_directory("assets/a/audio/x"), None);
    assert!(is_crate_local_media_path("crates/a/art/x.png"));
    assert!(!is_crate_local_media_path("crates/a/other/x.png"));
}

#[test]
fn audio_paths_are_recognised_by_root() {
    let root = PresentationAssetReference::new("audio/a.ogg").unwrap();
    let assets = PresentationAssetReference::new("assets/audio/a.ogg").unwrap();
    let local = PresentationAssetReference::new("crates/c/audio/a.ogg").unwrap();
    let image = PresentationAssetReference::new("assets/dreadstep/a.png").unwrap();
    assert!(root.is_audio_path());
    assert!(assets.is_audio_path());
    assert!(local.is_audio_path());
    assert!(!image.is_audio_path());
}

#[test]
fn manifest_rejects_duplicate_and_missing_families() {
    let reference = || PresentationAssetReference::new("assets/a.png").unwrap();
    let families = [
        SceneRenderPlaceholder::Terrain,
        SceneRenderPlaceholder::Player,
        SceneRenderPlaceholder::Enemy,
        SceneRenderPlaceholder::DeadActor,
        SceneRenderPlaceholder::GroundItem,
        SceneRenderPlaceholder::InventoryItem,
    ];
    let complete: Vec<_> = families.iter().map(|f| (*f, reference())).collect();
    let manifest = PresentationAssetManifest::new(complete).expect("complete manifest");
    for family in families {
        assert_eq!(manifest.reference(family).path(), "assets/a.png");
    }
    let mut duplicate: Vec<_> = families.iter().map(|f| (*f, reference())).collect();
    duplicate[5].0 = SceneRenderPlaceholder::Terrain;
    assert!(PresentationAssetManifest::new(duplicate).is_none());
    let short: Vec<_> = families[..5].iter().map(|f| (*f, reference())).collect();
    assert!(PresentationAssetManifest::new(short).is_none());
}

#[test]
fn audio_cues_skip_silent_events_and_join_their_sounds_in_order() {
    let actor = ActorId::new(1);
    let events = [
        Event::Moved { actor, from: Position::new(0, 0), to: Position::new(1, 0) },
        Event::DoorOpened { actor, position: Position::new(2, 0) },
        Event::Waited { actor, at: 3 },
    ];
    let cues = PresentationAudioCues::from_events(&events);
    assert_eq!(
        cues.cues(),
        &[PresentationAudioCue::Moved { actor }, PresentationAudioCue::Waited { actor }]
    );
    assert!(PresentationAudioCues::new().cues().is_empty());
    let manifest = build_audio_manifest().expect("audio manifest validates");
    let projection = PresentationAudioAssetProjection::from_cues(cues.cues(), &manifest);
    let paths: Vec<&str> = projection.entries().iter().map(|e| e.reference().path()).collect();
    assert_eq!(
        paths,
        vec!["assets/audio/dreadstep/moved.ogg", "assets/audio/dreadstep/waited.ogg"]
    );
    assert_eq!(projection.entries()[1].cue(), PresentationAudioCue::Waited { actor });
    assert!(PresentationAudioAssetProjection::new().entries().is_empty());
}
