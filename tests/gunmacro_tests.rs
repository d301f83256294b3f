use gunmacro::{dedup_near, Class, GunMacro, GunMacroBuilder, Input, Item, MacroFormat};
use Input::{Backslash, Down, Enter, Left, Right, Up};

fn no_adjacent_repeats(v: &[(Input, u32)]) -> bool {
    v.windows(2).all(|w| w[0].0 != w[1].0)
}

#[test]
fn empty_items_give_only_startup_and_close() {
    let m = GunMacro::from_items(&[]);
    assert_eq!(
        m.inputs,
        vec![
            (Backslash, 1),
            (Left, 4),
            (Right, 3),
            (Left, 1),
            (Up, 1),
            (Enter, 1),
            (Down, 2),
            (Backslash, 1),
        ]
    );
}

#[test]
fn pistol_needs_no_cursor_move() {
    let m = GunMacro::from_items(&[Item::Pistol]);
    assert_eq!(
        m.inputs,
        vec![
            (Backslash, 1),
            (Left, 4),
            (Right, 3),
            (Enter, 1),
            (Left, 1),
            (Up, 1),
            (Enter, 1),
            (Down, 2),
            (Backslash, 1),
        ]
    );
}

#[test]
fn two_explosives_select_their_class_once() {
    let m = GunMacro::from_items(&[Item::Grenade, Item::RocketLauncher]);
    assert_eq!(
        m.inputs,
        vec![
            (Backslash, 1),
            (Left, 4),
            (Right, 3),
            // to the Explosive section
            (Left, 1),
            (Enter, 1),
            (Down, 1),
            // grenades, one forward, ammunition
            (Right, 5),
            (Enter, 1),
            (Right, 1),
            (Enter, 10),
            // rocket launcher, one back, ammunition
            (Right, 2),
            (Enter, 1),
            (Left, 1),
            (Enter, 10),
            // back to the Gun section and close
            (Left, 7),
            (Up, 1),
            (Enter, 1),
            (Down, 2),
            (Backslash, 1),
        ]
    );
}

#[test]
fn repeated_item_merges_enters() {
    let m = GunMacro::from_items(&[Item::Pistol, Item::Pistol, Item::Pistol]);
    assert_eq!(
        m.inputs,
        vec![
            (Backslash, 1),
            (Left, 4),
            (Right, 3),
            (Enter, 3),
            (Left, 1),
            (Up, 1),
            (Enter, 1),
            (Down, 2),
            (Backslash, 1),
        ]
    );
}

#[test]
fn misc_item_goes_through_misc_section() {
    let m = GunMacro::from_items(&[Item::Binoculars]);
    assert_eq!(
        m.inputs,
        vec![
            (Backslash, 1),
            (Left, 4),
            (Right, 3),
            (Left, 1),
            (Down, 1),
            (Enter, 1),
            (Right, 2),
            (Enter, 1),
            (Left, 2),
            (Up, 1),
            (Enter, 1),
            (Down, 2),
            (Backslash, 1),
        ]
    );
}

#[test]
fn every_macro_is_framed_by_backslashes() {
    let lists: Vec<Vec<Item>> = vec![
        vec![],
        vec![Item::Sniper],
        vec![Item::C4, Item::Flashlight, Item::Ak47],
        vec![Item::SmokeGrenade, Item::SmokeGrenade, Item::Uzi, Item::Binoculars],
    ];
    for items in lists {
        let m = GunMacro::from_items(&items);
        assert!(m.inputs.len() >= 2);
        assert_eq!(m.inputs[0], (Backslash, 1));
        assert_eq!(*m.inputs.last().unwrap(), (Backslash, 1));
    }
}

#[test]
fn macros_have_no_adjacent_repeats() {
    let lists: Vec<Vec<Item>> = vec![
        vec![Item::Pistol, Item::Pistol],
        vec![Item::C4, Item::C4, Item::Grenade],
        vec![Item::Sword, Item::Flintlock, Item::Flashlight, Item::Flashlight],
    ];
    for items in lists {
        let m = GunMacro::from_items(&items);
        assert!(no_adjacent_repeats(&m.inputs));
    }
}

#[test]
fn dedup_near_sums_adjacent_runs() {
    let mut v = vec![(Left, 1), (Left, 2), (Right, 1), (Left, 4), (Left, 1), (Enter, 1)];
    dedup_near(&mut v);
    assert_eq!(v, vec![(Left, 3), (Right, 1), (Left, 5), (Enter, 1)]);
}

#[test]
fn dedup_near_keeps_empty_and_single() {
    let mut e: Vec<(Input, u32)> = vec![];
    dedup_near(&mut e);
    assert!(e.is_empty());
    let mut one = vec![(Up, 7)];
    dedup_near(&mut one);
    assert_eq!(one, vec![(Up, 7)]);
}

#[test]
fn dedup_near_runs_may_exceed_total() {
    let mut v = vec![(Left, 3_000_000_000), (Right, 3_000_000_000), (Right, 1)];
    dedup_near(&mut v);
    assert_eq!(v, vec![(Left, 3_000_000_000), (Right, 3_000_000_001)]);
}

#[test]
fn dedup_near_is_idempotent() {
    let mut v = vec![(Down, 1), (Down, 1), (Up, 2), (Up, 3), (Down, 1), (Enter, 10), (Enter, 1)];
    dedup_near(&mut v);
    let once = v.clone();
    dedup_near(&mut v);
    assert_eq!(v, once);
    assert_eq!(once, vec![(Down, 2), (Up, 5), (Down, 1), (Enter, 11)]);
}

#[test]
fn plaintext_of_single_instructions() {
    let m = GunMacro { inputs: vec![(Right, 4)] };
    assert_eq!(m.to_plaintext(), "Right x4\n");
    let m = GunMacro { inputs: vec![(Enter, 1)] };
    assert_eq!(m.to_plaintext(), "Enter\n");
}

#[test]
fn plaintext_keeps_order_and_count() {
    let m = GunMacro::from_items(&[Item::Grenade]);
    let text = m.to_plaintext();
    assert_eq!(text.lines().count(), m.inputs.len());
    assert_eq!(
        text,
        "Backslash\nLeft x4\nRight x3\nLeft\nEnter\nDown\nRight x5\nEnter\nRight\nEnter x10\n\
         Left x6\nUp\nEnter\nDown x2\nBackslash\n"
    );
}

#[test]
fn plaintext_multi_digit_count() {
    let m = GunMacro { inputs: vec![(Enter, 1234), (Up, 10), (Down, 0)] };
    assert_eq!(m.to_plaintext(), "Enter x1234\nUp x10\nDown\n");
}

#[test]
fn ahk_script_of_pistol() {
    let m = GunMacro::from_items(&[Item::Pistol]);
    let expected = "#Requires AutoHotkey v2.0\n#SingleInstance Force\n\nPgDn::{\n\
        \tSend(\"{\\}\")\n\
        \tSend(\"{Left 4}\")\n\
        \tSend(\"{Right 3}\")\n\
        \tSend(\"{Enter}\")\n\
        \tSend(\"{Left}\")\n\
        \tSend(\"{Up}\")\n\
        \tSend(\"{Enter}\")\n\
        \tSend(\"{Down 2}\")\n\
        \tSend(\"{\\}\")\n\
        }";
    assert_eq!(m.to_ahk_script(), expected);
}

#[test]
fn ahk_script_of_empty_macro() {
    let m = GunMacro { inputs: vec![] };
    assert_eq!(
        m.to_ahk_script(),
        "#Requires AutoHotkey v2.0\n#SingleInstance Force\n\nPgDn::{\n}"
    );
}

#[test]
fn ahk_script_counts_and_zero() {
    let m = GunMacro { inputs: vec![(Enter, 10), (Backslash, 2), (Up, 0)] };
    assert_eq!(
        m.to_ahk_script(),
        "#Requires AutoHotkey v2.0\n#SingleInstance Force\n\nPgDn::{\n\
         \tSend(\"{Enter 10}\")\n\tSend(\"{\\ 2}\")\n\tSend(\"{Up}\")\n}"
    );
}

#[test]
fn item_classes_and_orders() {
    assert_eq!(Item::Pistol.class(), Class::Gun);
    assert_eq!(Item::Pistol.order(), 1);
    assert_eq!(Item::Sniper.class(), Class::Gun);
    assert_eq!(Item::Sniper.order(), 12);
    assert_eq!(Item::C4.class(), Class::Explosive);
    assert_eq!(Item::C4.order(), 1);
    assert_eq!(Item::SmokeGrenade.order(), 3);
    assert_eq!(Item::Grenade.order(), 5);
    assert_eq!(Item::RocketLauncher.order(), 8);
    assert_eq!(Item::Flashlight.class(), Class::Misc);
    assert_eq!(Item::Flashlight.order(), 1);
    assert_eq!(Item::Binoculars.order(), 2);
    assert_eq!(Item::default(), Item::Pistol);
}

#[test]
fn item_names() {
    assert_eq!(Item::Ak47.name(), "AK-47");
    assert_eq!(Item::PlasmaShotgun.name(), "Plasma Shotgun");
    assert_eq!(Item::SmokeGrenade.name(), "Smoke Grenades");
    assert_eq!(Input::Backslash.name(), "Backslash");
}

#[test]
fn builder_steps_by_hand() {
    let mut b = GunMacroBuilder::new();
    b.move_cursor(0);
    b.move_cursor(-3);
    b.move_cursor_to(5);
    b.select_class(Class::Misc);
    b.grab_item(Item::Flashlight);
    let m = b.finish();
    assert_eq!(
        m.inputs,
        vec![
            (Backslash, 1),
            (Left, 4),
            (Right, 3),
            (Left, 3),
            (Right, 7),
            (Left, 5),
            (Down, 1),
            (Enter, 1),
            (Right, 1),
            (Enter, 1),
            (Left, 1),
            (Up, 1),
            (Enter, 1),
            (Down, 2),
            (Backslash, 1),
        ]
    );
}

#[test]
fn formats() {
    assert_eq!(MacroFormat::default(), MacroFormat::Ahk);
    assert_eq!(MacroFormat::Ahk.filters(), "AutoHotkey (*.ahk)");
    assert_eq!(MacroFormat::Plaintext.filters(), "Text File (*.txt)");
    assert_eq!(MacroFormat::Ahk.extension(), "ahk");
    assert_eq!(MacroFormat::Plaintext.extension(), "txt");
    assert_eq!(MacroFormat::Ahk.label(), "AutoHotkey");
    assert_eq!(MacroFormat::Plaintext.label(), "Plaintext");
    let m = GunMacro::from_items(&[Item::Uzi]);
    assert_eq!(MacroFormat::Plaintext.render(&m), m.to_plaintext());
    assert_eq!(MacroFormat::Ahk.render(&m), m.to_ahk_script());
}
