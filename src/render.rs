use vstd::prelude::*;
use vstd::string::*;
use crate::builder::GunMacro;
use crate::input::{input_name, Input};

verus! {

/// The character of the decimal digit `d`.
pub open spec fn digit_char(d: int) -> char {
    seq!['0', '1', '2', '3', '4', '5', '6', '7', '8', '9'][d]
}

/// The decimal representation of `n`, without leading zeros.
pub open spec fn decimal(n: nat) -> Seq<char>
    decreases n,
{
    if n < 10 {
        seq![digit_char(n as int)]
    } else {
        decimal(n / 10).push(digit_char((n % 10) as int))
    }
}

/// The plain-text line of one instruction: the input's name, then ` xN`
/// where the count N is above 1, then a newline.
pub open spec fn plain_line(x: (Input, u32)) -> Seq<char> {
    input_name(x.0) + (if x.1 > 1 {
        seq![' ', 'x'] + decimal(x.1 as nat)
    } else {
        seq![]
    }) + seq!['\n']
}

/// The plain-text listing of a sequence of instructions, one line each.
pub open spec fn plaintext_of(s: Seq<(Input, u32)>) -> Seq<char>
    decreases s.len(),
{
    if s.len() == 0 {
        seq![]
    } else {
        plaintext_of(s.drop_last()) + plain_line(s.last())
    }
}

/// The key an AutoHotkey `Send` names for an input.
pub open spec fn ahk_key(i: Input) -> Seq<char> {
    if i == Input::Backslash {
        seq!['\\']
    } else {
        input_name(i)
    }
}

/// The AutoHotkey line of one instruction: a tab, then `Send("{K}")` or,
/// where the count N is above 1, `Send("{K N}")`, then a newline.
pub open spec fn ahk_line(x: (Input, u32)) -> Seq<char> {
    "\tSend(\"{"@ + ahk_key(x.0) + (if x.1 > 1 {
        seq![' '] + decimal(x.1 as nat)
    } else {
        seq![]
    }) + "}\")\n"@
}

/// The AutoHotkey lines of a sequence of instructions, one line each.
pub open spec fn ahk_body(s: Seq<(Input, u32)>) -> Seq<char>
    decreases s.len(),
{
    if s.len() == 0 {
        seq![]
    } else {
        ahk_body(s.drop_last()) + ahk_line(s.last())
    }
}

/// The lines that open an AutoHotkey script: the version it requires, a
/// single-instance guard and the start of the PgDn hotkey's block.
pub open spec fn ahk_header() -> Seq<char> {
    "#Requires AutoHotkey v2.0\n"@ + "#SingleInstance Force\n"@ + "\n"@ + "PgDn::{\n"@
}

/// The AutoHotkey script of a sequence of instructions.
pub open spec fn ahk_script(s: Seq<(Input, u32)>) -> Seq<char> {
    ahk_header() + ahk_body(s) + seq!['}']
}

/// How many times `c` occurs in `x`.
pub open spec fn count_char(x: Seq<char>, c: char) -> nat
    decreases x.len(),
{
    if x.len() == 0 {
        0
    } else {
        count_char(x.drop_last(), c) + if x.last() == c { 1nat } else { 0nat }
    }
}

proof fn lemma_count_concat(a: Seq<char>, b: Seq<char>, c: char)
    ensures
        count_char(a + b, c) == count_char(a, c) + count_char(b, c),
    decreases b.len(),
{
    if b.len() == 0 {
        assert(a + b =~= a);
    } else {
        assert((a + b).drop_last() =~= a + b.drop_last());
        lemma_count_concat(a, b.drop_last(), c);
    }
}

proof fn lemma_count_absent(x: Seq<char>, c: char)
    requires
        forall|i: int| 0 <= i < x.len() ==> x[i] != c,
    ensures
        count_char(x, c) == 0,
    decreases x.len(),
{
    if x.len() > 0 {
        lemma_count_absent(x.drop_last(), c);
    }
}

proof fn lemma_digit_not_newline(k: int)
    requires
        0 <= k < 10,
    ensures
        digit_char(k) != '\n',
{
    assert(k == 0 || k == 1 || k == 2 || k == 3 || k == 4 || k == 5 || k == 6 || k == 7 || k == 8
        || k == 9);
}

proof fn lemma_decimal_no_newline(n: nat)
    ensures
        forall|i: int| 0 <= i < decimal(n).len() ==> decimal(n)[i] != '\n',
    decreases n,
{
    let d = decimal(n);
    if n >= 10 {
        lemma_decimal_no_newline(n / 10);
        lemma_digit_not_newline((n % 10) as int);
        assert forall|i: int| 0 <= i < d.len() implies d[i] != '\n' by {
            if i < d.len() - 1 {
                assert(d[i] == decimal(n / 10)[i]);
            }
        }
    } else {
        lemma_digit_not_newline(n as int);
    }
}

proof fn lemma_one_newline(x: Seq<char>, y: Seq<char>)
    requires
        forall|i: int| 0 <= i < x.len() ==> x[i] != '\n',
        forall|i: int| 0 <= i < y.len() ==> y[i] != '\n',
    ensures
        count_char(x + y + seq!['\n'], '\n') == 1,
{
    lemma_count_absent(x, '\n');
    lemma_count_absent(y, '\n');
    lemma_count_concat(x, y, '\n');
    lemma_count_concat(x + y, seq!['\n'], '\n');
    assert(seq!['\n'].drop_last() =~= Seq::<char>::empty());
    assert(count_char(Seq::<char>::empty(), '\n') == 0);
}

proof fn lemma_plain_line_count(x: (Input, u32))
    ensures
        count_char(plain_line(x), '\n') == 1,
{
    lemma_decimal_no_newline(x.1 as nat);
    let suffix = if x.1 > 1 {
        seq![' ', 'x'] + decimal(x.1 as nat)
    } else {
        seq![]
    };
    assert(forall|i: int| 0 <= i < suffix.len() ==> suffix[i] != '\n');
    lemma_one_newline(input_name(x.0), suffix);
}

proof fn lemma_ahk_line_count(x: (Input, u32))
    ensures
        count_char(ahk_line(x), '\n') == 1,
{
    reveal_strlit("\tSend(\"{");
    reveal_strlit("}\")\n");
    lemma_decimal_no_newline(x.1 as nat);
    let suffix = if x.1 > 1 {
        seq![' '] + decimal(x.1 as nat)
    } else {
        seq![]
    };
    let head = "\tSend(\"{"@ + ahk_key(x.0) + suffix;
    assert(forall|i: int| 0 <= i < head.len() ==> head[i] != '\n');
    lemma_one_newline(head, seq!['}', '"', ')']);
    assert("}\")\n"@ =~= seq!['}', '"', ')'] + seq!['\n']);
    assert(ahk_line(x) =~= head + seq!['}', '"', ')'] + seq!['\n']);
}

/// Plain-text rendering keeps order: the listing of one sequence followed by
/// another is the first listing followed by the second.
pub proof fn lemma_plaintext_concat(s: Seq<(Input, u32)>, t: Seq<(Input, u32)>)
    ensures
        plaintext_of(s + t) == plaintext_of(s) + plaintext_of(t),
    decreases t.len(),
{
    if t.len() == 0 {
        assert(s + t =~= s);
        assert(plaintext_of(s) + plaintext_of(t) =~= plaintext_of(s));
    } else {
        assert((s + t).drop_last() =~= s + t.drop_last());
        lemma_plaintext_concat(s, t.drop_last());
        assert(plaintext_of(s + t) =~= plaintext_of(s) + plaintext_of(t));
    }
}

/// The plain-text listing has exactly one line per instruction.
pub proof fn lemma_plaintext_line_count(s: Seq<(Input, u32)>)
    ensures
        count_char(plaintext_of(s), '\n') == s.len(),
    decreases s.len(),
{
    if s.len() > 0 {
        lemma_plaintext_line_count(s.drop_last());
        lemma_plain_line_count(s.last());
        lemma_count_concat(plaintext_of(s.drop_last()), plain_line(s.last()), '\n');
    } else {
        assert(plaintext_of(s) =~= Seq::<char>::empty());
    }
}

/// AutoHotkey rendering keeps order: the lines of one sequence followed by
/// another are the first one's lines followed by the second one's.
pub proof fn lemma_ahk_body_concat(s: Seq<(Input, u32)>, t: Seq<(Input, u32)>)
    ensures
        ahk_body(s + t) == ahk_body(s) + ahk_body(t),
    decreases t.len(),
{
    if t.len() == 0 {
        assert(s + t =~= s);
        assert(ahk_body(s) + ahk_body(t) =~= ahk_body(s));
    } else {
        assert((s + t).drop_last() =~= s + t.drop_last());
        lemma_ahk_body_concat(s, t.drop_last());
        assert(ahk_body(s + t) =~= ahk_body(s) + ahk_body(t));
    }
}

/// The AutoHotkey block has exactly one line per instruction.
pub proof fn lemma_ahk_body_line_count(s: Seq<(Input, u32)>)
    ensures
        count_char(ahk_body(s), '\n') == s.len(),
    decreases s.len(),
{
    if s.len() > 0 {
        lemma_ahk_body_line_count(s.drop_last());
        lemma_ahk_line_count(s.last());
        lemma_count_concat(ahk_body(s.drop_last()), ahk_line(s.last()), '\n');
    } else {
        assert(ahk_body(s) =~= Seq::<char>::empty());
    }
}

fn digit_str(d: u32) -> (r: &'static str)
    requires
        d < 10,
    ensures
        r@ == seq![digit_char(d as int)],
{
    let r = if d == 0 {
        proof { reveal_strlit("0"); }
        "0"
    } else if d == 1 {
        proof { reveal_strlit("1"); }
        "1"
    } else if d == 2 {
        proof { reveal_strlit("2"); }
        "2"
    } else if d == 3 {
        proof { reveal_strlit("3"); }
        "3"
    } else if d == 4 {
        proof { reveal_strlit("4"); }
        "4"
    } else if d == 5 {
        proof { reveal_strlit("5"); }
        "5"
    } else if d == 6 {
        proof { reveal_strlit("6"); }
        "6"
    } else if d == 7 {
        proof { reveal_strlit("7"); }
        "7"
    } else if d == 8 {
        proof { reveal_strlit("8"); }
        "8"
    } else {
        proof { reveal_strlit("9"); }
        "9"
    };
    assert(r@ =~= seq![digit_char(d as int)]);
    r
}

/// Appends the decimal representation of `n` to `s`.
fn push_decimal(s: &mut String, n: u32)
    ensures
        final(s)@ == old(s)@ + decimal(n as nat),
    decreases n,
{
    if n >= 10 {
        push_decimal(s, n / 10);
    }
    s.append(digit_str(n % 10));
    assert(final(s)@ =~= old(s)@ + decimal(n as nat));
}

impl GunMacro {
    /// The macro as an AutoHotkey v2 script bound to PgDn.
    pub fn to_ahk_script(&self) -> (r: String)
        ensures
            r@ == ahk_script(self.inputs@),
    {
        let mut s = String::new();
        s.append("#Requires AutoHotkey v2.0\n");
        s.append("#SingleInstance Force\n");
        s.append("\n");
        s.append("PgDn::{\n");
        let ghost head = s@;
        assert(head =~= ahk_header());
        let mut i: usize = 0;
        assert(self.inputs@.take(0) =~= Seq::<(Input, u32)>::empty());
        while i < self.inputs.len()
            invariant
                0 <= i <= self.inputs@.len(),
                s@ == head + ahk_body(self.inputs@.take(i as int)),
            decreases self.inputs@.len() - i,
        {
            let (input, n) = self.inputs[i];
            let ghost before = s@;
            s.append("\tSend(\"{");
            match input {
                Input::Backslash => {
                    proof { reveal_strlit("\\"); }
                    assert("\\"@ =~= ahk_key(input));
                    s.append("\\");
                },
                other => s.append(other.name()),
            }
            if n > 1 {
                proof { reveal_strlit(" "); }
                assert(" "@ =~= seq![' ']);
                s.append(" ");
                push_decimal(&mut s, n);
            }
            s.append("}\")\n");
            proof {
                assert(self.inputs@.take(i + 1).drop_last() =~= self.inputs@.take(i as int));
                assert(s@ =~= before + ahk_line((input, n)));
            }
            i = i + 1;
        }
        assert(self.inputs@.take(i as int) =~= self.inputs@);
        proof { reveal_strlit("}"); }
        s.append("}");
        assert(s@ =~= ahk_script(self.inputs@));
        s
    }

    /// The macro as a plain listing, one line per instruction.
    pub fn to_plaintext(&self) -> (r: String)
        ensures
            r@ == plaintext_of(self.inputs@),
    {
        let mut s = String::new();
        let mut i: usize = 0;
        assert(self.inputs@.take(0) =~= Seq::<(Input, u32)>::empty());
        assert(s@ =~= plaintext_of(self.inputs@.take(0)));
        while i < self.inputs.len()
            invariant
                0 <= i <= self.inputs@.len(),
                s@ == plaintext_of(self.inputs@.take(i as int)),
            decreases self.inputs@.len() - i,
        {
            let (input, n) = self.inputs[i];
            let ghost before = s@;
            s.append(input.name());
            if n > 1 {
                proof { reveal_strlit(" x"); }
                assert(" x"@ =~= seq![' ', 'x']);
                s.append(" x");
                push_decimal(&mut s, n);
            }
            proof { reveal_strlit("\n"); }
            assert("\n"@ =~= seq!['\n']);
            s.append("\n");
            proof {
                assert(self.inputs@.take(i + 1).drop_last() =~= self.inputs@.take(i as int));
                assert(s@ =~= before + plain_line((input, n)));
            }
            i = i + 1;
        }
        assert(self.inputs@.take(i as int) =~= self.inputs@);
        s
    }
}

} // verus!
