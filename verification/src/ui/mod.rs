use vstd::prelude::*;
use vstd::string::StringExecFns;

verus! {

/// `n` copies of the character `c`
pub open spec fn repeat_char(c: char, n: nat) -> Seq<char> {
    Seq::new(n, |i: int| c)
}

/// Half of what `w` exceeds `len` by (none if it does not): the padding that centres a text of
/// length `len` in a width `w`
pub open spec fn centring_pad(len: nat, w: nat) -> nat {
    if w > len {
        ((w - len) / 2) as nat
    } else {
        0
    }
}

/// A message boxed between two rules of `w` dashes, each on its own line, the message centred
/// in the width `w` if asked; `len` is the message's length as the centring counts it (its
/// length in bytes)
pub open spec fn box_message(msg: Seq<char>, len: nat, w: nat, text_centred: bool) -> Seq<char> {
    let rule = repeat_char('-', w);
    let line = if text_centred { repeat_char(' ', centring_pad(len, w)) + msg } else { msg };
    rule + seq!['\n'] + line + seq!['\n'] + rule + seq!['\n']
}

/// A message centred in a width of at least its length, with as many spaces after it as
/// before it
pub open spec fn centred_message(msg: Seq<char>, len: nat, w: nat) -> Seq<char> {
    let pad = repeat_char(' ', centring_pad(len, if w > len { w } else { len }));
    pad + msg + pad
}

/// `n` copies of the one-character string `unit`
fn repeat_str(unit: &str, n: usize) -> (r: String)
    requires
        unit@.len() == 1,
    ensures
        r@ == repeat_char(unit@[0], n as nat),
{
    let mut r = String::new();
    let mut i: usize = 0;
    while i < n
        invariant
            i <= n,
            unit@.len() == 1,
            r@ == repeat_char(unit@[0], i as nat),
        decreases n - i,
    {
        r.append(unit);
        i = i + 1;
        assert(r@ =~= repeat_char(unit@[0], i as nat));
    }
    r
}

/// The message `str` boxed between two rules of `w` dashes, optionally centred in that width
pub fn format_box_message(str: &str, w: usize, text_centred: bool) -> (r: String)
    ensures
        r@ == box_message(str@, str.len() as nat, w as nat, text_centred),
{
    proof {
        reveal_strlit("-");
        reveal_strlit(" ");
        reveal_strlit("\n");
    }
    let rule = repeat_str("-", w);
    let mut r = String::new();
    r.append(rule.as_str());
    r.append("\n");
    if text_centred {
        let pad = repeat_str(" ", w.saturating_sub(str.len()) / 2);
        r.append(pad.as_str());
    }
    r.append(str);
    r.append("\n");
    r.append(rule.as_str());
    r.append("\n");
    proof {
        let line = if text_centred {
            repeat_char(' ', centring_pad(str.len() as nat, w as nat)) + str@
        } else {
            str@
        };
        assert(r@ =~= box_message(str@, str.len() as nat, w as nat, text_centred));
    }
    r
}

/// The message `str` centred in a width of `w` or its own length, whichever is more
pub fn format_centred_message(str: &str, w: usize) -> (r: String)
    ensures
        r@ == centred_message(str@, str.len() as nat, w as nat),
{
    proof {
        reveal_strlit(" ");
    }
    let w = if w > str.len() {
        w
    } else {
        str.len()
    };
    let pad = repeat_str(" ", (w - str.len()) / 2);
    let mut r = String::new();
    r.append(pad.as_str());
    r.append(str);
    r.append(pad.as_str());
    proof {
        assert(r@ =~= centred_message(str@, str.len() as nat, w as nat));
    }
    r
}

/// The rows of a boxed message for a width of at least the message's length: the rule of
/// dashes that goes above and below it, and the message's own row, centred if asked
pub fn box_message_rows(str: &str, w: usize, text_centred: bool) -> (r: (String, String))
    ensures
        ({
            let w = if w > str.len() { w as nat } else { str.len() as nat };
            &&& r.0@ == repeat_char('-', w)
            &&& r.1@ == if text_centred {
                repeat_char(' ', centring_pad(str.len() as nat, w)) + str@
            } else {
                str@
            }
        }),
{
    proof {
        reveal_strlit("-");
        reveal_strlit(" ");
    }
    let w = if w > str.len() {
        w
    } else {
        str.len()
    };
    let rule = repeat_str("-", w);
    let mut line = String::new();
    if text_centred {
        let pad = repeat_str(" ", (w - str.len()) / 2);
        line.append(pad.as_str());
    }
    line.append(str);
    proof {
        if text_centred {
            assert(line@ =~= repeat_char(' ', centring_pad(str.len() as nat, w as nat)) + str@);
        } else {
            assert(line@ =~= str@);
        }
    }
    (rule, line)
}

} // verus!
