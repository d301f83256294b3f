use vstd::prelude::*;
use crate::class::Class;
use crate::compress::{
    compress, dedup_near, lemma_compress_first, lemma_compress_last,
    lemma_compress_no_adjacent_repeats, lemma_total_fits, no_adjacent_repeats, runs_fit, total,
};
use crate::input::Input;
use crate::item::Item;

verus! {

/// The instruction that moves the cursor by `d` rows: left for a negative
/// `d`, right for a positive one, none for zero.
pub open spec fn moves(d: int) -> Seq<(Input, u32)> {
    if d < 0 {
        seq![(Input::Left, (-d) as u32)]
    } else if d > 0 {
        seq![(Input::Right, d as u32)]
    } else {
        seq![]
    }
}

/// The state of a macro under construction.
pub ghost struct BuildState {
    /// The row the cursor is on in the active section.
    pub cursor: int,
    /// The active section.
    pub class: Class,
    /// The instructions so far.
    pub inputs: Seq<(Input, u32)>,
}

impl BuildState {
    /// The state right after the menu opens: the menu is open, and the
    /// cursor has been pushed to the left edge and back onto the Pistol's row.
    pub open spec fn start() -> BuildState {
        BuildState {
            cursor: 1,
            class: Class::Gun,
            inputs: seq![(Input::Backslash, 1u32), (Input::Left, 4u32), (Input::Right, 3u32)],
        }
    }

    pub open spec fn with_input(self, x: (Input, u32)) -> BuildState {
        BuildState { cursor: self.cursor, class: self.class, inputs: self.inputs.push(x) }
    }

    /// The state after moving the cursor by `d` rows.
    pub open spec fn moved(self, d: int) -> BuildState {
        BuildState { cursor: self.cursor + d, class: self.class, inputs: self.inputs + moves(d) }
    }

    /// The state after moving the cursor to row `p`.
    pub open spec fn moved_to(self, p: int) -> BuildState {
        self.moved(p - self.cursor)
    }

    /// The state after switching to section `c`: back to row 0, Up (Gun),
    /// nothing (Explosive) or Down (Misc), Enter, then the section's own
    /// realignment, two Downs (Gun), one Down (Explosive) or none (Misc).
    pub open spec fn selected(self, c: Class) -> BuildState {
        let s = self.moved_to(0);
        let s = match c {
            Class::Gun => s.with_input((Input::Up, 1u32)),
            Class::Explosive => s,
            Class::Misc => s.with_input((Input::Down, 1u32)),
        };
        let s = s.with_input((Input::Enter, 1u32));
        let s = BuildState { cursor: s.cursor, class: c, inputs: s.inputs };
        match c {
            Class::Gun => s.with_input((Input::Down, 2u32)),
            Class::Explosive => s.with_input((Input::Down, 1u32)),
            Class::Misc => s,
        }
    }

    /// The state after picking `item`: its section if another is active, its
    /// row, Enter; for an explosive then one row back (the rocket launcher)
    /// or forward (the others), and ten Enters for its ammunition.
    pub open spec fn grabbed(self, item: Item) -> BuildState {
        let s = if self.class != item.spec_class() {
            self.selected(item.spec_class())
        } else {
            self
        };
        let s = s.moved_to(item.spec_order()).with_input((Input::Enter, 1u32));
        if item.spec_class() == Class::Explosive {
            let d: int = if item == Item::RocketLauncher { -1 } else { 1 };
            s.moved(d).with_input((Input::Enter, 10u32))
        } else {
            s
        }
    }

    /// The state after picking each of `items` in turn.
    pub open spec fn grabbed_all(self, items: Seq<Item>) -> BuildState
        decreases items.len(),
    {
        if items.len() == 0 {
            self
        } else {
            self.grabbed_all(items.drop_last()).grabbed(items.last())
        }
    }

    /// The finished macro: back to the Gun section, close the menu, compress.
    pub open spec fn finished(self) -> Seq<(Input, u32)> {
        compress(self.selected(Class::Gun).inputs.push((Input::Backslash, 1u32)))
    }
}

/// The macro that picks `items` in order.
pub open spec fn macro_of(items: Seq<Item>) -> Seq<(Input, u32)> {
    BuildState::start().grabbed_all(items).finished()
}

/// Builds a macro step by step.
#[derive(Debug)]
pub struct GunMacroBuilder {
    cursor: i32,
    class: Class,
    inputs: Vec<(Input, u32)>,
}

/// A macro: a sequence of instructions, each an input and its repeat count.
/// One made by `from_items` or `finish` has no two adjacent instructions
/// with the same input.
#[derive(Debug)]
pub struct GunMacro {
    pub inputs: Vec<(Input, u32)>,
}

impl View for GunMacroBuilder {
    type V = BuildState;

    closed spec fn view(&self) -> BuildState {
        BuildState { cursor: self.cursor as int, class: self.class, inputs: self.inputs@ }
    }
}

proof fn lemma_total_concat(a: Seq<(Input, u32)>, b: Seq<(Input, u32)>)
    ensures
        total(a + b) == total(a) + total(b),
    decreases b.len(),
{
    if b.len() > 0 {
        assert((a + b).drop_last() =~= a + b.drop_last());
        lemma_total_concat(a, b.drop_last());
    } else {
        assert(a + b =~= a);
    }
}

proof fn lemma_total_push(a: Seq<(Input, u32)>, x: (Input, u32))
    ensures
        total(a.push(x)) == total(a) + x.1,
{
    assert(a.push(x).drop_last() =~= a);
}

proof fn lemma_total_moved(s: BuildState, d: int)
    requires
        -0x8000_0000 < d < 0x8000_0000,
    ensures
        total(s.moved(d).inputs) == total(s.inputs) + (if d < 0 { -d } else { d }),
{
    lemma_total_concat(s.inputs, moves(d));
    let m = moves(d);
    let e = Seq::<(Input, u32)>::empty();
    assert(total(e) == 0);
    if m.len() > 0 {
        assert(m =~= e.push(m[0]));
        lemma_total_push(e, m[0]);
    }
}

proof fn lemma_total_selected(s: BuildState, c: Class)
    requires
        -0x8000_0000 < s.cursor < 0x8000_0000,
    ensures
        total(s.selected(c).inputs) == total(s.inputs) + (if s.cursor < 0 { -s.cursor } else { s.cursor }) + match c {
            Class::Gun => 4int,
            Class::Explosive => 2,
            Class::Misc => 2,
        },
        s.selected(c).cursor == 0,
        s.selected(c).class == c,
{
    let t = s.moved_to(0);
    lemma_total_moved(s, -s.cursor);
    let u = match c {
        Class::Gun => t.with_input((Input::Up, 1u32)),
        Class::Explosive => t,
        Class::Misc => t.with_input((Input::Down, 1u32)),
    };
    lemma_total_push(t.inputs, (Input::Up, 1u32));
    lemma_total_push(t.inputs, (Input::Down, 1u32));
    let v = u.with_input((Input::Enter, 1u32));
    lemma_total_push(u.inputs, (Input::Enter, 1u32));
    lemma_total_push(v.inputs, (Input::Down, 2u32));
    lemma_total_push(v.inputs, (Input::Down, 1u32));
}

/// Picking an item from a cursor on one of the rows 0 to 12 leaves it on one
/// of those rows and adds at most 40 to the sum of the counts.
proof fn lemma_grab_bounds(s: BuildState, item: Item)
    requires
        0 <= s.cursor <= 12,
    ensures
        0 <= s.grabbed(item).cursor <= 12,
        total(s.grabbed(item).inputs) <= total(s.inputs) + 40,
{
    let t = if s.class != item.spec_class() {
        s.selected(item.spec_class())
    } else {
        s
    };
    lemma_total_selected(s, item.spec_class());
    let o = item.spec_order();
    lemma_total_moved(t, o - t.cursor);
    let u = t.moved_to(o);
    let w = u.with_input((Input::Enter, 1u32));
    lemma_total_push(u.inputs, (Input::Enter, 1u32));
    let d: int = if item == Item::RocketLauncher { -1 } else { 1 };
    lemma_total_moved(w, d);
    lemma_total_push(w.moved(d).inputs, (Input::Enter, 10u32));
}

/// `b` begins with the first two instructions of `a`.
spec fn keeps_head(a: Seq<(Input, u32)>, b: Seq<(Input, u32)>) -> bool {
    a.len() >= 2 && b.len() >= 2 && b[0] == a[0] && b[1] == a[1]
}

proof fn lemma_moved_keeps_head(s: BuildState, d: int)
    requires
        s.inputs.len() >= 2,
    ensures
        keeps_head(s.inputs, s.moved(d).inputs),
{
}

proof fn lemma_selected_keeps_head(s: BuildState, c: Class)
    requires
        s.inputs.len() >= 2,
    ensures
        keeps_head(s.inputs, s.selected(c).inputs),
{
    lemma_moved_keeps_head(s, -s.cursor);
}

proof fn lemma_grabbed_keeps_head(s: BuildState, item: Item)
    requires
        s.inputs.len() >= 2,
    ensures
        keeps_head(s.inputs, s.grabbed(item).inputs),
{
    let t = if s.class != item.spec_class() {
        s.selected(item.spec_class())
    } else {
        s
    };
    lemma_selected_keeps_head(s, item.spec_class());
    lemma_moved_keeps_head(t, item.spec_order() - t.cursor);
    let w = t.moved_to(item.spec_order()).with_input((Input::Enter, 1u32));
    let d: int = if item == Item::RocketLauncher { -1 } else { 1 };
    lemma_moved_keeps_head(w, d);
}

proof fn lemma_grabbed_all_keeps_head(items: Seq<Item>)
    ensures
        keeps_head(BuildState::start().inputs, BuildState::start().grabbed_all(items).inputs),
    decreases items.len(),
{
    if items.len() > 0 {
        lemma_grabbed_all_keeps_head(items.drop_last());
        lemma_grabbed_keeps_head(BuildState::start().grabbed_all(items.drop_last()), items.last());
    }
}

/// Every macro, the one for no items included, opens with a single Backslash
/// and closes with a single Backslash.
pub proof fn lemma_macro_framed(items: Seq<Item>)
    ensures
        macro_of(items).len() >= 2,
        macro_of(items)[0] == (Input::Backslash, 1u32),
        macro_of(items).last() == (Input::Backslash, 1u32),
{
    let g = BuildState::start().grabbed_all(items);
    lemma_grabbed_all_keeps_head(items);
    lemma_selected_keeps_head(g, Class::Gun);
    let raw = g.selected(Class::Gun).inputs.push((Input::Backslash, 1u32));
    assert(raw[0].0 != raw[1].0);
    lemma_compress_first(raw);
    assert(raw[raw.len() - 2] == (Input::Down, 2u32));
    lemma_compress_last(raw);
}

/// No two adjacent instructions of a macro share the same input.
pub proof fn lemma_macro_no_adjacent_repeats(items: Seq<Item>)
    ensures
        no_adjacent_repeats(macro_of(items)),
{
    let g = BuildState::start().grabbed_all(items);
    lemma_compress_no_adjacent_repeats(g.selected(Class::Gun).inputs.push((Input::Backslash, 1u32)));
}

/// A builder's cursor always fits in an `i32`.
pub proof fn lemma_cursor_fits(b: &GunMacroBuilder)
    ensures
        i32::MIN <= b@.cursor <= i32::MAX,
{
}

impl GunMacroBuilder {
    /// A builder with the menu open and the cursor on the Pistol's row.
    pub fn new() -> (r: Self)
        ensures
            r@ == BuildState::start(),
    {
        let mut inputs: Vec<(Input, u32)> = Vec::new();
        inputs.push((Input::Backslash, 1));
        inputs.push((Input::Left, 4));
        inputs.push((Input::Right, 3));
        let r = GunMacroBuilder { cursor: 1, class: Class::Gun, inputs };
        assert(r@.inputs =~= BuildState::start().inputs);
        r
    }

    fn add_input(&mut self, input: Input)
        ensures
            final(self)@ == old(self)@.with_input((input, 1u32)),
    {
        self.inputs.push((input, 1));
    }

    fn add_input_n(&mut self, input: Input, n: u32)
        ensures
            final(self)@ == (if n != 0 { old(self)@.with_input((input, n)) } else { old(self)@ }),
    {
        if n != 0 {
            self.inputs.push((input, n));
        }
    }

    /// Moves the cursor by `d` rows.
    pub fn move_cursor(&mut self, d: i32)
        requires
            i32::MIN <= old(self)@.cursor + d <= i32::MAX,
        ensures
            final(self)@ == old(self)@.moved(d as int),
    {
        self.cursor = self.cursor + d;
        if d < 0 {
            self.add_input_n(Input::Left, (0 - (d as i64)) as u32);
        } else if d > 0 {
            self.add_input_n(Input::Right, d as u32);
        }
        assert(final(self)@.inputs =~= old(self)@.moved(d as int).inputs);
    }

    /// Moves the cursor to row `pos`.
    pub fn move_cursor_to(&mut self, pos: i32)
        requires
            i32::MIN <= pos - old(self)@.cursor <= i32::MAX,
        ensures
            final(self)@ == old(self)@.moved_to(pos as int),
    {
        self.move_cursor(pos - self.cursor);
    }

    /// Switches to section `class`, leaving the cursor on its row 0.
    pub fn select_class(&mut self, class: Class)
        requires
            old(self)@.cursor > i32::MIN,
        ensures
            final(self)@ == old(self)@.selected(class),
    {
        self.move_cursor_to(0);
        match class {
            Class::Gun => self.add_input(Input::Up),
            Class::Explosive => {},
            Class::Misc => self.add_input(Input::Down),
        }
        self.add_input(Input::Enter);
        self.class = class;
        match class {
            Class::Gun => self.add_input_n(Input::Down, 2),
            Class::Explosive => self.add_input(Input::Down),
            Class::Misc => {},
        }
    }

    /// Picks `item`, switching sections first where needed.
    pub fn grab_item(&mut self, item: Item)
        requires
            i32::MIN + 12 < old(self)@.cursor,
        ensures
            final(self)@ == old(self)@.grabbed(item),
    {
        if self.class != item.class() {
            self.select_class(item.class());
        }
        self.move_cursor_to(item.order());
        self.add_input(Input::Enter);

        // the ammunition of an explosive
        if item.class() == Class::Explosive {
            if item == Item::RocketLauncher {
                self.move_cursor(-1);
            } else {
                self.move_cursor(1);
            }
            self.add_input_n(Input::Enter, 10);
        }
    }

    /// Returns to the Gun section, closes the menu and compresses the
    /// instructions.
    pub fn finish(self) -> (r: GunMacro)
        requires
            self@.cursor > i32::MIN,
            runs_fit(self@.selected(Class::Gun).inputs.push((Input::Backslash, 1u32))),
        ensures
            r.inputs@ == self@.finished(),
    {
        let mut b = self;
        b.select_class(Class::Gun);
        b.add_input(Input::Backslash);
        dedup_near(&mut b.inputs);
        GunMacro { inputs: b.inputs }
    }
}

impl GunMacro {
    /// The macro that picks `items` in order.
    pub fn from_items(items: &[Item]) -> (r: Self)
        requires
            items@.len() <= 100_000_000,
        ensures
            r.inputs@ == macro_of(items@),
    {
        let mut b = GunMacroBuilder::new();
        let mut i: usize = 0;
        proof {
            assert(items@.take(0) =~= Seq::<Item>::empty());
            let e = Seq::<(Input, u32)>::empty();
            assert(total(e) == 0);
            let a = e.push((Input::Backslash, 1u32));
            let c = a.push((Input::Left, 4u32));
            lemma_total_push(e, (Input::Backslash, 1u32));
            lemma_total_push(a, (Input::Left, 4u32));
            lemma_total_push(c, (Input::Right, 3u32));
            assert(c.push((Input::Right, 3u32)) =~= b@.inputs);
        }
        while i < items.len()
            invariant
                0 <= i <= items@.len() <= 100_000_000,
                b@ == BuildState::start().grabbed_all(items@.take(i as int)),
                0 <= b@.cursor <= 12,
                total(b@.inputs) <= 8 + 40 * i,
            decreases items@.len() - i,
        {
            let item = items[i];
            proof {
                assert(items@.take(i + 1).drop_last() =~= items@.take(i as int));
                lemma_grab_bounds(b@, item);
            }
            b.grab_item(item);
            i = i + 1;
        }
        proof {
            assert(items@.take(i as int) =~= items@);
            lemma_total_selected(b@, Class::Gun);
            let raw = b@.selected(Class::Gun).inputs;
            lemma_total_push(raw, (Input::Backslash, 1u32));
            lemma_total_fits(raw.push((Input::Backslash, 1u32)));
        }
        b.finish()
    }
}

} // verus!
