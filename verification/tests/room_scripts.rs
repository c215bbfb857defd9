use vm_rust::door_guard::{
    door_points_to_previous_room, is_entry_door_explicitly_targeted, near_room_cell,
    room_name_key, should_debounce_entry_door, sprites_intersect, DoorFacts, DoorGuard,
    DoorGuardAction, DoorStatus, SpriteRect,
};
use vm_rust::legacy_online_actor::{
    actor_profile, actor_visible_sprite_pos, advance_actor_frame, crop_actor_frame, ActorBitmap,
    LegacyOnlineActor,
};
use vm_rust::player_datum::{PlayerDatumHandlers, PlayerDatumResult, ScriptErrorCode};
use vm_rust::text::{decimal_string, eq_ignore_ascii_case, str_equal};

fn facts(targeted: bool, previous: bool, debounce: bool) -> Option<DoorFacts> {
    Some(DoorFacts {
        explicitly_targeted: targeted,
        points_to_previous_room: previous,
        debounce,
    })
}

#[test]
fn door_guard_handlers() {
    let g = DoorGuard;
    assert!(g.has_handler("checkHit"));
    assert!(g.has_handler("CHECKNOHIT"));
    assert!(!g.has_handler("checkHitX"));
}

#[test]
fn door_guard_check_no_hit() {
    let g = DoorGuard;
    assert_eq!(g.call_handler("checkNoHit", None), DoorGuardAction::PassThrough);
    assert_eq!(
        g.call_handler("checknohit", facts(true, true, false)),
        DoorGuardAction::SetStatus(DoorStatus::CheckHit)
    );
    assert_eq!(g.call_handler("checkNoHit", facts(false, true, true)), DoorGuardAction::Swallow);
    assert_eq!(g.call_handler("checkNoHit", facts(false, false, true)), DoorGuardAction::PassThrough);
}

#[test]
fn door_guard_check_hit() {
    let g = DoorGuard;
    assert_eq!(g.call_handler("checkHit", None), DoorGuardAction::PassThrough);
    assert_eq!(
        g.call_handler("CheckHit", facts(true, true, true)),
        DoorGuardAction::SetStatus(DoorStatus::CheckNoHit)
    );
    assert_eq!(g.call_handler("checkHit", facts(true, true, false)), DoorGuardAction::PassThrough);
    assert_eq!(g.call_handler("other", facts(true, true, true)), DoorGuardAction::PassThrough);
}

#[test]
fn room_keys() {
    assert_eq!(room_name_key("@lobby"), "lobby");
    assert_eq!(room_name_key("lobby"), "lobby");
    assert_eq!(room_name_key("@@x"), "@x");
    assert_eq!(room_name_key(""), "");
    assert!(door_points_to_previous_room(Some("@Lobby"), Some("lobby")));
    assert!(door_points_to_previous_room(Some("bar"), Some("@BAR")));
    assert!(!door_points_to_previous_room(Some("bar"), Some("")));
    assert!(!door_points_to_previous_room(Some("bar"), Some("pub")));
    assert!(!door_points_to_previous_room(None, Some("bar")));
    assert!(!door_points_to_previous_room(Some("bar"), None));
}

#[test]
fn rect_overlap() {
    let a = SpriteRect { left: 0, top: 0, right: 10, bottom: 10 };
    let b = SpriteRect { left: 5, top: 5, right: 15, bottom: 15 };
    let c = SpriteRect { left: 10, top: 0, right: 20, bottom: 10 };
    assert!(sprites_intersect(Some(a), Some(b)));
    assert!(!sprites_intersect(Some(a), Some(c)));
    assert!(!sprites_intersect(None, Some(b)));
    assert!(should_debounce_entry_door(true, false, Some(a), Some(b)));
    assert!(!should_debounce_entry_door(true, true, Some(a), Some(b)));
    assert!(!should_debounce_entry_door(false, false, Some(a), Some(b)));
    assert!(!should_debounce_entry_door(true, false, Some(a), None));
}

#[test]
fn walk_list_targets_door() {
    assert!(near_room_cell((3, 4), (4, 3)));
    assert!(!near_room_cell((3, 4), (5, 4)));
    let walk = vec![None, Some((10, 10)), Some((4, 5))];
    assert!(is_entry_door_explicitly_targeted(true, Some((3, 4)), Some(&walk)));
    assert!(!is_entry_door_explicitly_targeted(false, Some((3, 4)), Some(&walk)));
    assert!(!is_entry_door_explicitly_targeted(true, None, Some(&walk)));
    assert!(!is_entry_door_explicitly_targeted(true, Some((3, 4)), None));
    let far = vec![Some((10, 10)), None];
    assert!(!is_entry_door_explicitly_targeted(true, Some((3, 4)), Some(&far)));
}

#[test]
fn actor_handlers_and_profiles() {
    let actor = LegacyOnlineActor::new("pBartender_Aqua");
    assert!(actor.has_handler("GoMove"));
    assert!(actor.has_handler("startconv"));
    assert!(!actor.has_handler("dance"));
    let aqua = actor_profile("pBartender_Aqua");
    assert_eq!(aqua.loc, (-480, 315));
    assert_eq!(aqua.frame_count, 18);
    assert!(aqua.has_dialogue);
    assert_eq!(aqua.member_candidates, vec!["obj_bartender"]);
    let den = actor_profile("PBARTENDER_DEN");
    assert_eq!(den.frame_duration, 7);
    assert_eq!(den.conversation_title, "Good to see you.");
    assert_eq!(den.member_candidates, vec!["obj_bartender2", "obj_bartender"]);
    let other = actor_profile("pBartender");
    assert!(!other.has_dialogue);
    assert_eq!(other.frame_count, 1);
    assert!(other.conversation_lines.is_empty());
    assert_eq!(actor_visible_sprite_pos(200), 201);
}

#[test]
fn animation_clock() {
    let r = advance_actor_frame(1, 8, Some(5), Some(3));
    assert_eq!((r.frame, r.anim_tick, r.anim_frame), (0, None, None));
    let r = advance_actor_frame(18, 8, Some(3), Some(4));
    assert_eq!((r.frame, r.anim_tick, r.anim_frame), (4, Some(4), None));
    let r = advance_actor_frame(18, 8, Some(7), Some(17));
    assert_eq!((r.frame, r.anim_tick, r.anim_frame), (0, Some(0), Some(0)));
    let r = advance_actor_frame(18, 8, None, None);
    assert_eq!((r.frame, r.anim_tick, r.anim_frame), (0, Some(1), None));
    let r = advance_actor_frame(3, 1, None, Some(-5));
    assert_eq!((r.frame, r.anim_tick, r.anim_frame), (0, Some(0), Some(-1)));
}

fn strip(width: u16, height: u16, bit_depth: u8, data: Vec<u8>) -> ActorBitmap<u32, u8> {
    ActorBitmap {
        width,
        height,
        bit_depth,
        original_bit_depth: bit_depth,
        data,
        palette_ref: 42,
        matte: Some(9),
        use_alpha: true,
        trim_white_space: false,
        was_trimmed: false,
        version: 3,
    }
}

#[test]
fn crop_frames() {
    // 4 x 2 pixels, 8 bits: two frames 2 pixels wide.
    let src = strip(4, 2, 8, vec![1, 2, 3, 4, 5, 6, 7, 8]);
    let f0 = crop_actor_frame(&src, 0, 2).unwrap();
    assert_eq!((f0.width, f0.height), (2, 2));
    assert_eq!(f0.data, vec![1, 2, 5, 6]);
    let f1 = crop_actor_frame(&src, 3, 2).unwrap();
    assert_eq!(f1.data, vec![3, 4, 7, 8]);
    assert!(f1.use_alpha);
    assert_eq!(f1.palette_ref, 42);
    assert_eq!(f1.matte, None);
    assert_eq!(f1.version, 0);
    assert_eq!(f1.bit_depth, 8);
    assert_eq!(f1.original_bit_depth, 8);
    assert!(crop_actor_frame(&src, 0, 0).is_none());
    assert!(crop_actor_frame(&src, 0, 5).is_none());
    assert!(crop_actor_frame(&strip(4, 2, 4, vec![0; 8]), 0, 1).is_none());
    assert!(crop_actor_frame(&strip(0, 2, 8, vec![]), 0, 1).is_none());
}

#[test]
fn crop_frames_short_data_uses_inferred_stride() {
    // Declared 4 x 2 at 16 bits needs 16 bytes; only 10 are there:
    // stride 10 / 2 = 5, rounded down to 4 bytes = 2 pixels, one frame each.
    let src = strip(4, 2, 16, vec![1, 2, 3, 4, 5, 6, 7, 8, 9, 10]);
    let f = crop_actor_frame(&src, 1, 2).unwrap();
    assert_eq!((f.width, f.height), (1, 2));
    assert_eq!(f.data, vec![3, 4, 7, 8]);
}

#[test]
fn player_datum_calls() {
    match PlayerDatumHandlers::call("count", Some("windowList")) {
        Ok(PlayerDatumResult::Int(n)) => assert_eq!(n, 0),
        _ => panic!("count of windowList"),
    }
    let err = PlayerDatumHandlers::call("count", Some("sprites")).unwrap_err();
    assert_eq!(err.code, ScriptErrorCode::Generic);
    assert_eq!(err.message, "Invalid call _player.count(sprites)");
    assert!(matches!(PlayerDatumHandlers::call("cursor", None), Ok(PlayerDatumResult::Cursor)));
    let err = PlayerDatumHandlers::call("quit", None).unwrap_err();
    assert_eq!(err.code, ScriptErrorCode::HandlerNotFound);
    assert_eq!(err.message, "No handler quit for player datum");
    assert!(PlayerDatumHandlers::count("windowList").is_ok());
}

#[test]
fn text_helpers() {
    assert_eq!(decimal_string(0), "0");
    assert_eq!(decimal_string(1234567), "1234567");
    assert!(eq_ignore_ascii_case("HeLLo", "hello"));
    assert!(!eq_ignore_ascii_case("hello", "hell"));
    assert!(!eq_ignore_ascii_case("ä", "Ä"));
    assert!(str_equal("abc", "abc"));
    assert!(!str_equal("abc", "abd"));
}

use vm_rust::legacy_online_actor::{
    append_object_list_entry, clear_online_actor_slot, entry_has_sprite, frame_reg_point,
    prop_value, remove_object_list_entry, set_list_item, ActorAction, ActorSlots, ActorStatus,
    IntArg, ObjectEntry, PropKey, PropValue, WalkType,
};

fn slots(sprite_pos: Option<i32>, online_pos: Option<i32>) -> ActorSlots {
    ActorSlots { sprite_pos, online_pos, loc_is_point: true }
}

#[test]
fn actor_call_handler_actions() {
    let aqua = LegacyOnlineActor::new("pbartender_aqua");
    let plain = LegacyOnlineActor::new("pbartender_lobby");
    let s = slots(Some(203), Some(2));
    assert_eq!(aqua.call_handler("new", false, IntArg::Value(1), None, s), ActorAction::NotHandled);
    assert_eq!(
        aqua.call_handler("NEW", true, IntArg::Value(2), None, s),
        ActorAction::Init { online_pos: 2, sprite_pos: 206 }
    );
    assert_eq!(
        aqua.call_handler("new", true, IntArg::Absent, None, s),
        ActorAction::Init { online_pos: 0, sprite_pos: 200 }
    );
    assert_eq!(aqua.call_handler("getMyHeight", true, IntArg::Absent, None, s), ActorAction::ReturnInt(0));
    assert_eq!(
        aqua.call_handler("kill", true, IntArg::Absent, None, s),
        ActorAction::Kill { sprite_pos: 203, visible_pos: 204, clear_slot: Some(2), status: ActorStatus::Killed }
    );
    assert_eq!(
        aqua.call_handler("kill", true, IntArg::Absent, None, slots(None, Some(0))),
        ActorAction::Kill { sprite_pos: 0, visible_pos: 1, clear_slot: None, status: ActorStatus::Killed }
    );
    assert_eq!(aqua.call_handler("setEmoticon", true, IntArg::Value(7), None, s), ActorAction::SetEmoticon(7));
    assert_eq!(aqua.call_handler("setEmoticon", true, IntArg::Absent, None, s), ActorAction::SetEmoticon(0));
    assert_eq!(aqua.call_handler("setEmoticon", true, IntArg::NotInt, None, s), ActorAction::ArgumentError);
    assert_eq!(aqua.call_handler("new", true, IntArg::NotInt, None, s), ActorAction::ArgumentError);
    assert_eq!(aqua.call_handler("kill", true, IntArg::NotInt, None, s), ActorAction::Kill { sprite_pos: 203, visible_pos: 204, clear_slot: Some(2), status: ActorStatus::Killed });
    assert_eq!(aqua.call_handler("setkeywalk", true, IntArg::Absent, None, s), ActorAction::SetWalkType(WalkType::KeyWalk));
    assert_eq!(aqua.call_handler("setMouseWalk", true, IntArg::Absent, None, s), ActorAction::SetWalkType(WalkType::MouseWalk));
    assert_eq!(aqua.call_handler("getAvatarSprite", true, IntArg::Absent, None, s), ActorAction::ReturnSprite(204));
    assert_eq!(aqua.call_handler("getInfoImage", true, IntArg::Absent, None, s), ActorAction::Void);
    assert_eq!(aqua.call_handler("showNameSign", true, IntArg::Absent, Some(40), s), ActorAction::ShowNameSign(40));
    assert_eq!(aqua.call_handler("showNameSign", true, IntArg::Absent, None, s), ActorAction::Void);
    assert_eq!(aqua.call_handler("doMouseOver", true, IntArg::Absent, None, s), ActorAction::NpcCursor);
    assert_eq!(plain.call_handler("doMouseOver", true, IntArg::Absent, None, s), ActorAction::Void);
    assert_eq!(aqua.call_handler("doClick", true, IntArg::Absent, None, s), ActorAction::StartConversation);
    assert_eq!(plain.call_handler("startConv", true, IntArg::Absent, None, s), ActorAction::Void);
    assert_eq!(aqua.call_handler("goMove", true, IntArg::Absent, None, s), ActorAction::FrameEvent { moved_sprite: Some(204) });
    let no_loc = ActorSlots { sprite_pos: Some(i32::MAX), online_pos: None, loc_is_point: false };
    assert_eq!(aqua.call_handler("frameEvent", true, IntArg::Absent, None, no_loc), ActorAction::FrameEvent { moved_sprite: None });
    assert_eq!(aqua.call_handler("addPet", true, IntArg::Absent, None, s), ActorAction::Void);
    assert_eq!(aqua.call_handler("dance", true, IntArg::Absent, None, s), ActorAction::NotHandled);
}

#[test]
fn registration_point() {
    assert_eq!(frame_reg_point(21, 40, 35), (10, 35));
    assert_eq!(frame_reg_point(21, 40, 80), (10, 40));
    assert_eq!(frame_reg_point(20, 40, -3), (10, 0));
}

fn entry(nr: i32) -> ObjectEntry<u32> {
    Some(vec![
        (PropKey::Name("pObj".to_string()), PropValue::Instance(1)),
        (PropKey::Name("PNR".to_string()), PropValue::Int(nr)),
    ])
}

fn prop_of(e: &ObjectEntry<u32>, key: &str) -> Option<PropValue<u32>> {
    e.as_ref().and_then(|props| {
        props
            .iter()
            .find(|p| matches!(&p.0, PropKey::Name(n) if n.eq_ignore_ascii_case(key)))
            .map(|p| p.1)
    })
}

fn sprite_of(e: &ObjectEntry<u32>) -> Option<i32> {
    match prop_of(e, "pNr") {
        Some(PropValue::Int(n)) => Some(n),
        _ => None,
    }
}

#[test]
fn object_lists() {
    let props: Vec<(PropKey, PropValue<u32>)> = vec![
        (PropKey::Other, PropValue::Int(1)),
        (PropKey::Name("pnr".to_string()), PropValue::Int(5)),
        (PropKey::Name("pNr".to_string()), PropValue::Int(6)),
    ];
    assert_eq!(prop_value(&props, "pNr"), Some(1));
    assert_eq!(prop_value(&props, "pObj"), None);
    assert!(entry_has_sprite(&Some(props), 5));
    assert!(entry_has_sprite(&entry(201), 201));
    assert!(!entry_has_sprite(&entry(201), 202));
    assert!(!entry_has_sprite::<u32>(&None, 201));
    let not_int: ObjectEntry<u32> =
        Some(vec![(PropKey::Name("pNr".to_string()), PropValue::Other)]);
    assert!(!entry_has_sprite(&not_int, 0));

    let mut items = vec![entry(201), None, entry(205), entry(201)];
    append_object_list_entry(&mut items, 201, 77);
    assert_eq!(items.len(), 3);
    assert_eq!(sprite_of(&items[0]), None);
    assert_eq!(sprite_of(&items[1]), Some(205));
    assert_eq!(sprite_of(&items[2]), Some(201));
    assert_eq!(prop_of(&items[2], "pObj"), Some(PropValue::Instance(77)));
    // appending again leaves the same list
    append_object_list_entry(&mut items, 201, 77);
    assert_eq!(items.len(), 3);
    assert_eq!(sprite_of(&items[2]), Some(201));
    // removing after appending leaves the other entries
    assert!(remove_object_list_entry(&mut items, 201));
    assert_eq!(items.len(), 2);
    assert_eq!(sprite_of(&items[1]), Some(205));
    assert!(!remove_object_list_entry(&mut items, 300));
    assert_eq!(items.len(), 2);
}

#[test]
fn online_slots() {
    let mut list = vec![5, 6, 7];
    set_list_item(&mut list, 2, 0);
    assert_eq!(list, vec![5, 0, 7]);
    set_list_item(&mut list, 0, 9);
    assert_eq!(list, vec![9, 0, 7]);
    set_list_item(&mut list, 4, 1);
    assert_eq!(list, vec![9, 0, 7]);
    let mut users = vec![1, 2, 3];
    let mut online = vec![4, 5];
    clear_online_actor_slot(&mut users, &mut online, 3, 0);
    assert_eq!(users, vec![1, 2, 0]);
    assert_eq!(online, vec![4, 5]);
    clear_online_actor_slot(&mut users, &mut online, 0, 0);
    assert_eq!(users, vec![1, 2, 0]);
}

use vm_rust::legacy_online_actor::{
    actor_sprite_settings, conversation_layout, initial_actor_props, name_sign_loc, InitValue,
};

#[test]
fn initial_properties() {
    let profile = actor_profile("pbartender_den");
    let props = initial_actor_props(&profile, 2);
    assert_eq!(props.len(), 38);
    assert_eq!(props[0], ("pStatus", InitValue::Symbol("chat")));
    assert_eq!(props[2], ("pLoc", InitValue::Point(225, 125)));
    assert_eq!(props[11], ("pWalkSpeed", InitValue::Float(0)));
    assert_eq!(props[16], ("pOnlinePos", InitValue::Int(2)));
    assert_eq!(props[21], ("pSpritePos", InitValue::Int(206)));
    assert_eq!(props[25], ("pName", InitValue::Text("Bartender")));
    assert_eq!(props[29], ("pAction", InitValue::Void));
    assert_eq!(props[33], ("pSpriteNr", InitValue::Int(206)));
    assert_eq!(props[37], ("pNPClist", InitValue::NameList("Bartender")));
    let actor = LegacyOnlineActor::new("pbartender_den");
    let names = actor.get_property_names();
    assert_eq!(names.len(), 39);
    assert_eq!(names[0], "pStatus");
    assert_eq!(names[38], "pFrameMember");
}

#[test]
fn name_sign_and_conversation() {
    assert_eq!(name_sign_loc((100, 300), 50, (0, 0)), Some((100, 248)));
    assert_eq!(name_sign_loc((100, 300), 50, (100, 248)), None);
    let bubbles = conversation_layout(&actor_profile("pbartender_aqua"));
    assert_eq!(
        bubbles,
        vec![(1, "Welcome to the Aqua Lounge."), (2, "Take it easy and enjoy the bubbles.")]
    );
    assert!(conversation_layout(&actor_profile("pbartender")).is_empty());
}

#[test]
fn sprite_settings() {
    let s = actor_sprite_settings(Some((40, 60)));
    assert_eq!((s.ink, s.blend, s.width, s.height, s.color), (36, 100, 40, 60, 255));
    assert!(s.has_size_changed && s.puppet && s.visible && s.editable && s.has_loc_changed);
    let s = actor_sprite_settings(None);
    assert_eq!((s.width, s.height), (0, 0));
    assert!(!s.has_size_changed);
}

#[test]
fn animation_clock_casts_frame_count() {
    if usize::BITS == 64 {
        let count = (1usize << 32) + 3;
        let r = advance_actor_frame(count, 1, None, Some(2));
        assert_eq!((r.frame, r.anim_frame), (0, Some(0)));
    }
}

use vm_rust::door_guard::{
    get_global_instance_number_prop, get_global_list_instance_prop, get_instance_number_prop,
    get_instance_point_prop, get_instance_sprite_prop, wrong_kind_error, DatumValue, NumberValue,
    PropDatum,
};
use vm_rust::legacy_online_actor::{
    cleared_sprite_settings, frame_member_layout, frame_update, init_register_steps,
    init_sprite_steps, status_symbol, ClearedSprite, InitStep,
};

fn datum(value: DatumValue<f64>, kind: &str) -> PropDatum<f64> {
    PropDatum { value, kind_name: kind.to_string() }
}

#[test]
fn sprite_property_reads() {
    assert_eq!(get_instance_sprite_prop::<f64>("pSprite", None).unwrap(), None);
    let d = datum(DatumValue::SpriteRef(12), "sprite");
    assert_eq!(get_instance_sprite_prop("pSprite", Some(&d)).unwrap(), Some(12));
    let d = datum(DatumValue::Int(70000), "integer");
    assert_eq!(get_instance_sprite_prop("pSprite", Some(&d)).unwrap(), Some(70000i32 as i16));
    let d = datum(DatumValue::Void, "void");
    assert_eq!(get_instance_sprite_prop("pUser", Some(&d)).unwrap(), None);
    let d = datum(DatumValue::Point(1.0, 2.0), "point");
    let err = get_instance_sprite_prop("pUser", Some(&d)).unwrap_err();
    assert_eq!(err.code, ScriptErrorCode::Generic);
    assert_eq!(err.message, "Expected sprite property pUser, got point");
}

#[test]
fn point_and_number_property_reads() {
    let d = datum(DatumValue::Point(3.5, -1.0), "point");
    assert_eq!(get_instance_point_prop("pLoc", Some(&d)).unwrap(), Some((3.5, -1.0)));
    let d = datum(DatumValue::Void, "void");
    assert_eq!(get_instance_point_prop("pLoc", Some(&d)).unwrap(), None);
    let d = datum(DatumValue::Int(4), "integer");
    let err = get_instance_point_prop("pLoc", Some(&d)).unwrap_err();
    assert_eq!(err.message, "Expected point property pLoc, got integer");

    assert_eq!(get_instance_number_prop("pGridRatio", Some(&d)).unwrap(), Some(NumberValue::Int(4)));
    let f = datum(DatumValue::Float(2.5), "float");
    assert_eq!(
        get_instance_number_prop("pGridRatio", Some(&f)).unwrap(),
        Some(NumberValue::Float(2.5))
    );
    let o = datum(DatumValue::Other, "string");
    let err = get_instance_number_prop("pGridRatio", Some(&o)).unwrap_err();
    assert_eq!(err.message, "Expected number property pGridRatio, got string");
    assert_eq!(get_global_instance_number_prop::<f64>("pGridRatio", None).unwrap(), None);
    assert_eq!(get_global_instance_number_prop::<f64>("pGridRatio", Some(None)).unwrap(), None);
    assert_eq!(
        get_global_instance_number_prop("pGridRatio", Some(Some(&f))).unwrap(),
        Some(NumberValue::Float(2.5))
    );
    let e = wrong_kind_error("sprite", "x", "list");
    assert_eq!(e.message, "Expected sprite property x, got list");
}

#[test]
fn global_list_reads() {
    let items: Vec<Option<Option<u32>>> = vec![Some(Some(7)), None, Some(None)];
    assert_eq!(get_global_list_instance_prop(Some(&items), 1), Some(7));
    assert_eq!(get_global_list_instance_prop(Some(&items), 0), Some(7));
    assert_eq!(get_global_list_instance_prop(Some(&items), 2), None);
    assert_eq!(get_global_list_instance_prop(Some(&items), 3), None);
    assert_eq!(get_global_list_instance_prop(Some(&items), 4), None);
    assert_eq!(get_global_list_instance_prop::<u32>(None, 1), None);
}

#[test]
fn kill_writes() {
    assert_eq!(status_symbol(ActorStatus::Killed), "killed");
    assert_eq!(
        cleared_sprite_settings(),
        ClearedSprite { has_member: false, loc_h: -100, loc_v: -100, visible: false }
    );
}

#[test]
fn frame_member_updates() {
    let src = strip(4, 2, 8, vec![1, 2, 3, 4, 5, 6, 7, 8]);
    assert!(frame_update(1, Some(&src), true, 0).is_none());
    assert!(frame_update::<u32, u8>(2, None, true, 0).is_none());
    assert!(frame_update(2, Some(&src), false, 0).is_none());
    assert!(frame_update(5, Some(&src), true, 0).is_none());
    let f = frame_update(2, Some(&src), true, 1).unwrap();
    assert_eq!(f.data, vec![3, 4, 7, 8]);
    assert_eq!(f.palette_ref, 42);
    assert_eq!(f.version, 0);
}

#[test]
fn frame_member_layouts() {
    let l = frame_member_layout(21, 40, 35, Some(7u8), 9u8);
    assert_eq!((l.width, l.height, l.reg_point, l.member_reg_point, l.bg_color), (21, 40, (10, 35), (10, 35), 7));
    let l = frame_member_layout(20, 40, 90, None, 9u8);
    assert_eq!((l.reg_point, l.member_reg_point, l.bg_color), ((10, 40), (10, 40), 9));
    let l = frame_member_layout(3, 5, -2, None, 1u8);
    assert_eq!(l.reg_point, (1, 0));
}

#[test]
fn init_steps() {
    assert!(init_sprite_steps(206, false).is_empty());
    assert_eq!(
        init_sprite_steps(206, true),
        vec![InitStep::SetFrameMember, InitStep::ClearSprite(206), InitStep::AssignSprite(207)]
    );
    assert!(init_register_steps(207, false).is_empty());
    assert_eq!(
        init_register_steps(207, true),
        vec![InitStep::RegisterButton(207), InitStep::RegisterMouseOver(207)]
    );
}

#[test]
fn script_name_case_does_not_matter() {
    let upper = LegacyOnlineActor::new("PBARTENDER_AQUA");
    let lower = LegacyOnlineActor::new(&"PBARTENDER_AQUA".to_ascii_lowercase());
    let s = slots(Some(203), Some(2));
    for name in ["doClick", "doMouseOver", "startConv", "kill", "new", "dance", "goMove"] {
        assert_eq!(
            upper.call_handler(name, true, IntArg::Value(1), None, s),
            lower.call_handler(name, true, IntArg::Value(1), None, s)
        );
        assert_eq!(upper.has_handler(name), lower.has_handler(name));
    }
    assert_eq!(upper.call_handler("doClick", true, IntArg::Absent, None, s), ActorAction::StartConversation);
}

#[test]
fn handled_exactly_when_listed() {
    let actor = LegacyOnlineActor::new("pbartender");
    let s = slots(Some(203), Some(2));
    for name in ["new", "GOMOVE", "updateUser", "checkEmoticon", "lookAtOwner", "dance", "", "kil"] {
        let handled = actor.call_handler(name, true, IntArg::Absent, None, s) != ActorAction::NotHandled;
        assert_eq!(handled, actor.has_handler(name));
    }
}
