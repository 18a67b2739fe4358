//! The clipboard text framing for copied nodes: a fixed ASCII prefix
//! identifying the payload as node data, followed by the serialized node
//! records. The surrounding application turns records into text and back;
//! the framing itself is checked here.

use vstd::prelude::*;
use vstd::string::{StringExecFns, StrSliceExecFns};

verus! {

/// The number of characters in the clipboard prefix.
pub const CLIPBOARD_PREFIX_LEN: usize = 16;

/// The prefix identifying a clipboard payload as node data.
pub fn nodes_clipboard_prefix() -> (r: &'static str)
    ensures
        r@ == "graphite/nodes: "@,
        r@.len() == CLIPBOARD_PREFIX_LEN,
{
    proof {
        reveal_strlit("graphite/nodes: ");
    }
    "graphite/nodes: "
}

/// Frame serialized node records as clipboard text.
pub fn make_clipboard_text(serialized: &str) -> (r: String)
    ensures
        r@ == "graphite/nodes: "@ + serialized@,
{
    let mut text = "graphite/nodes: ".to_owned();
    text.append(serialized);
    text
}

/// The serialized records of a clipboard payload, when the text carries the
/// node-data prefix; nothing otherwise.
#[verifier::loop_isolation(false)]
pub fn strip_clipboard_prefix(text: &str) -> (r: Option<&str>)
    ensures
        match r {
            Option::Some(rest) => text@ == "graphite/nodes: "@ + rest@,
            Option::None => !("graphite/nodes: "@.is_prefix_of(text@)),
        },
{
    proof {
        reveal_strlit("graphite/nodes: ");
    }
    let prefix = nodes_clipboard_prefix();
    let text_len = text.unicode_len();
    if text_len < CLIPBOARD_PREFIX_LEN {
        proof {
            assert(!("graphite/nodes: "@.is_prefix_of(text@)));
        }
        return Option::None;
    }
    let mut i: usize = 0;
    while i < CLIPBOARD_PREFIX_LEN
        invariant
            0 <= i <= CLIPBOARD_PREFIX_LEN,
            text@.len() == text_len >= CLIPBOARD_PREFIX_LEN,
            "graphite/nodes: "@.len() == CLIPBOARD_PREFIX_LEN,
            forall|k: int| 0 <= k < i ==> text@[k] == "graphite/nodes: "@[k],
        decreases CLIPBOARD_PREFIX_LEN - i,
    {
        if text.get_char(i) != prefix.get_char(i) {
            proof {
                assert(!("graphite/nodes: "@.is_prefix_of(text@))) by {
                    if "graphite/nodes: "@.is_prefix_of(text@) {
                        assert(text@.subrange(0, CLIPBOARD_PREFIX_LEN as int)[i as int]
                            == text@[i as int]);
                    }
                }
            }
            return Option::None;
        }
        i = i + 1;
    }
    let rest = text.substring_char(CLIPBOARD_PREFIX_LEN, text_len);
    proof {
        assert(text@ =~= "graphite/nodes: "@ + rest@);
    }
    Option::Some(rest)
}

} // verus!
