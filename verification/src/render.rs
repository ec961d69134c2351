//! The text of an env-file: one `NAME=value` line for each variable of one
//! environment, in ascending order of name.

use crate::error::CommandError;
use crate::var_map::{sorted_listing, VarMap};
use vstd::prelude::*;
use vstd::string::*;

verus! {

/// The JSON string literal that `serde_json` writes for a text: the text in
/// double quotes, with the characters escaped that JSON does not take as they
/// are.
pub uninterp spec fn json_string(text: Seq<char>) -> Seq<char>;

/// A text that stands in double quotes and holds no line feed.
pub open spec fn quoted_on_one_line(text: Seq<char>) -> bool {
    &&& text.len() >= 2
    &&& text.first() == '"'
    &&& text.last() == '"'
    &&& !text.contains('\n')
}

/// Writes `value` as a JSON string literal with `serde_json::to_string`. On a
/// text the call does not fail: it writes into memory, and a text has nothing
/// that JSON cannot hold. The literal depends on the text of `value` alone. It
/// opens and closes with a double quote, and a line feed in the text is
/// written as a backslash and an `n`, so that the literal holds none.
#[verifier::external_body]
fn encode_json_string(value: &str) -> (r: Result<String, serde_json::Error>)
    ensures
        r is Ok,
        r matches Ok(literal) ==> literal@ == json_string(value@),
        r matches Ok(literal) ==> quoted_on_one_line(literal@),
{
    serde_json::to_string(value)
}

/// The text that stands for a value in a line: its JSON string literal, or an
/// empty pair of quotes where only the names are wanted.
pub open spec fn shown_value(value: Seq<char>, names_only: bool) -> Seq<char> {
    if names_only {
        seq!['"', '"']
    } else {
        json_string(value)
    }
}

/// One line of an env-file, with its line feed.
pub open spec fn env_line(name: Seq<char>, shown: Seq<char>) -> Seq<char> {
    name + seq!['='] + shown + seq!['\n']
}

/// The lines of a listing, one after the other in the listing's order.
pub open spec fn env_file_text(listing: Seq<(Seq<char>, Seq<char>)>, names_only: bool) -> Seq<char>
    decreases listing.len(),
{
    if listing.len() == 0 {
        Seq::<char>::empty()
    } else {
        env_file_text(listing.drop_last(), names_only) + env_line(
            listing.last().0,
            shown_value(listing.last().1, names_only),
        )
    }
}

/// Appends the line for `name` to `buffer`. `shown` is the text that stands
/// for the value, as it is to appear.
pub fn push_env_line(buffer: &mut String, name: &str, shown: &str)
    ensures
        final(buffer)@ == old(buffer)@ + env_line(name@, shown@),
{
    proof {
        reveal_strlit("=");
        reveal_strlit("\n");
    }
    buffer.append(name);
    buffer.append("=");
    buffer.append(shown);
    buffer.append("\n");
}

/// The number of line feeds in a text.
pub open spec fn line_feeds(text: Seq<char>) -> nat
    decreases text.len(),
{
    if text.len() == 0 {
        0
    } else {
        line_feeds(text.drop_last()) + if text.last() == '\n' {
            1nat
        } else {
            0nat
        }
    }
}

/// Every value of a listing is shown in double quotes on one line.
pub open spec fn values_shown_on_one_line(
    listing: Seq<(Seq<char>, Seq<char>)>,
    names_only: bool,
) -> bool {
    forall|i: int|
        0 <= i < listing.len() ==> quoted_on_one_line(
            shown_value((#[trigger] listing[i]).1, names_only),
        )
}

/// A text without a line feed counts none.
pub proof fn lemma_no_line_feed(text: Seq<char>)
    requires
        !text.contains('\n'),
    ensures
        line_feeds(text) == 0,
    decreases text.len(),
{
    if text.len() > 0 {
        assert(text.last() == text[text.len() - 1]);
        assert forall|c: char| text.drop_last().contains(c) implies text.contains(c) by {
            let i = choose|i: int| 0 <= i < text.drop_last().len() && text.drop_last()[i] == c;
            assert(text[i] == c);
        }
        lemma_no_line_feed(text.drop_last());
    }
}

/// The line feeds of two texts, one after the other, add up.
pub proof fn lemma_line_feeds_add(a: Seq<char>, b: Seq<char>)
    ensures
        line_feeds(a + b) == line_feeds(a) + line_feeds(b),
    decreases b.len(),
{
    if b.len() == 0 {
        assert(a + b =~= a);
    } else {
        assert((a + b).drop_last() =~= a + b.drop_last());
        lemma_line_feeds_add(a, b.drop_last());
    }
}

/// An env-file has one line for each variable: where no name holds a line
/// feed and each value is shown on one line, the text holds as many line feeds
/// as the listing has entries, and ends with one unless it is empty.
pub proof fn lemma_one_line_per_variable(listing: Seq<(Seq<char>, Seq<char>)>, names_only: bool)
    requires
        forall|i: int| 0 <= i < listing.len() ==> !(#[trigger] listing[i]).0.contains('\n'),
        values_shown_on_one_line(listing, names_only),
    ensures
        line_feeds(env_file_text(listing, names_only)) == listing.len(),
        listing.len() > 0 ==> env_file_text(listing, names_only).last() == '\n',
    decreases listing.len(),
{
    if listing.len() > 0 {
        let before = listing.drop_last();
        let name = listing.last().0;
        let shown = shown_value(listing.last().1, names_only);
        assert(forall|i: int| 0 <= i < before.len() ==> before[i] == listing[i]);
        lemma_one_line_per_variable(before, names_only);
        assert(listing.last() == listing[listing.len() - 1]);
        lemma_no_line_feed(name);
        lemma_no_line_feed(shown);
        lemma_no_line_feed(seq!['=']);
        lemma_line_feeds_add(name, seq!['=']);
        lemma_line_feeds_add(name + seq!['='], shown);
        lemma_line_feeds_add(name + seq!['='] + shown, seq!['\n']);
        assert(line_feeds(seq!['\n']) == 1) by {
            assert(seq!['\n'].last() == '\n');
            assert(line_feeds(seq!['\n'].drop_last()) == 0);
        }
        lemma_line_feeds_add(env_file_text(before, names_only), env_line(name, shown));
    }
}

/// The text of an env-file for `vars`: a line for each variable in ascending
/// order of name, the value as a JSON string literal, or as an empty pair of
/// quotes where `names_only` is set.
pub fn render_env_file(vars: &VarMap<String>, names_only: bool) -> (r: Result<String, CommandError>)
    ensures
        r is Ok,
        r matches Ok(text) ==> text@ == env_file_text(vars.listing(), names_only),
        sorted_listing(vars.listing()),
        values_shown_on_one_line(vars.listing(), names_only),
{
    let mut buffer = String::new();
    let n = vars.len();
    let mut i: usize = 0;
    while i < n
        invariant
            i <= n == vars.listing().len(),
            sorted_listing(vars.listing()),
            buffer@ == env_file_text(vars.listing().take(i as int), names_only),
            values_shown_on_one_line(vars.listing().take(i as int), names_only),
        decreases n - i,
    {
        let (name, value) = vars.entry(i);
        let ghost done = vars.listing().take(i as int);
        let ghost next = vars.listing().take(i + 1);
        proof {
            assert(next.drop_last() =~= done);
            assert(forall|j: int| 0 <= j < i ==> next[j] == done[j]);
        }
        if names_only {
            proof {
                reveal_strlit("\"\"");
                assert(seq!['"', '"'].last() == '"');
            }
            push_env_line(&mut buffer, name.as_str(), "\"\"");
        } else {
            match encode_json_string(value.as_str()) {
                Ok(literal) => {
                    push_env_line(&mut buffer, name.as_str(), literal.as_str());
                },
                Err(error) => {
                    return Err(CommandError::Encoding(error));
                },
            }
        }
        i += 1;
    }
    assert(vars.listing().take(n as int) =~= vars.listing());
    Ok(buffer)
}

} // verus!
