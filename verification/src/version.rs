//! The version marker: the record of the last version that was applied in
//! full, and the test that tells a current installation from a stale one.

use vstd::prelude::*;
use crate::text::is_white_space;
use crate::text::trim;
use crate::text::trim_end;
use crate::text::trim_start;
use crate::text::trimmed;

verus! {

/// Whether the local marker names the version that the server reports:
/// there is a marker, and both are equal once the white space around them
/// is taken off. Without a marker the installation is always stale.
pub open spec fn is_current(marker: Option<Seq<char>>, remote: Seq<char>) -> bool {
    match marker {
        Some(local) => trimmed(local) == trimmed(remote),
        None => false,
    }
}

/// What the marker file holds after an update to a version: the version
/// without the white space around it, and a line feed.
pub open spec fn marker_text(remote: Seq<char>) -> Seq<char> {
    trimmed(remote).push('\n')
}

/// Decides whether the installation is current.
pub fn up_to_date(marker: &Option<String>, remote: &str) -> (r: bool)
    ensures
        r == is_current(
            match marker {
                Some(local) => Some(local@),
                None => None,
            },
            remote@,
        ),
{
    match marker {
        Some(local) => {
            let a = trim(local.as_str());
            let b = trim(remote);
            a.to_owned() == b.to_owned()
        },
        None => false,
    }
}

/// The content to write to the marker file after an update.
pub fn marker_content(remote: &str) -> (content: String)
    ensures
        content@ == marker_text(remote@),
{
    proof {
        reveal_strlit("\n");
    }
    let mut content = trim(remote).to_owned();
    content.append("\n");
    assert("\n"@ =~= seq!['\n']);
    assert(content@ =~= trimmed(remote@).push('\n'));
    content
}

/// What is left of a text once its leading white space is gone is empty
/// or begins with another character.
proof fn lemma_trim_start_clean(s: Seq<char>)
    ensures
        trim_start(s).len() == 0 || !is_white_space(trim_start(s).first()),
    decreases s.len(),
{
    if s.len() > 0 && is_white_space(s.first()) {
        lemma_trim_start_clean(s.drop_first());
    }
}

/// What is left of a text once its trailing white space is gone is a
/// prefix of the text, and is empty or ends with another character.
proof fn lemma_trim_end_clean(s: Seq<char>)
    ensures
        trim_end(s).is_prefix_of(s),
        trim_end(s).len() == 0 || !is_white_space(trim_end(s).last()),
    decreases s.len(),
{
    if s.len() > 0 && is_white_space(s.last()) {
        lemma_trim_end_clean(s.drop_last());
    }
}

/// Trimming the marker's content gives the trimmed version back: the line
/// feed goes, and nothing else.
pub proof fn lemma_marker_trims_to_version(remote: Seq<char>)
    ensures
        trimmed(marker_text(remote)) == trimmed(remote),
{
    let inner = trim_start(remote);
    let t = trimmed(remote);
    lemma_trim_start_clean(remote);
    lemma_trim_end_clean(inner);
    let line = t.push('\n');
    assert(is_white_space('\n'));
    assert(line.drop_last() =~= t);
    if t.len() == 0 {
        assert(line.drop_first() =~= Seq::<char>::empty());
        assert(trim_start(line.drop_first()) == Seq::<char>::empty());
        assert(trim_start(line) == Seq::<char>::empty());
        assert(t =~= Seq::<char>::empty());
    } else {
        assert(t.first() == inner.first());
        assert(line.first() == t.first());
        assert(trim_start(line) == line);
        assert(trim_end(line) == trim_end(t));
        assert(trim_end(t) == t);
    }
}

/// A marker written for a version is current for that version.
pub proof fn lemma_marker_is_current(remote: Seq<char>)
    ensures
        is_current(Some(marker_text(remote)), remote),
{
    lemma_marker_trims_to_version(remote);
}

} // verus!
