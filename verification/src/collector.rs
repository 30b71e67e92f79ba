//! Selecting the synchronization peer's row from the query tool's
//! captured output and parsing it.
use crate::error::NtpError;
use crate::parser::{parse_ntp_line, spec_parse_ntp_line, NtpInfo};
use vstd::prelude::*;

verus! {

/// Whether a line carries the tally marker of the selected sync peer.
pub open spec fn is_marker_line(l: Seq<char>) -> bool {
    l.len() > 0 && l[0] == '*'
}

/// The first marker line, if any.
pub open spec fn first_marker(ls: Seq<Seq<char>>) -> Option<Seq<char>>
    decreases ls.len(),
{
    if ls.len() == 0 {
        None
    } else if is_marker_line(ls[0]) {
        Some(ls[0])
    } else {
        first_marker(ls.drop_first())
    }
}

/// The line to parse: the first marker line, or — best effort when not
/// yet synchronized — the first line; none when no lines remain.
pub open spec fn selected_line(ls: Seq<Seq<char>>) -> Option<Seq<char>> {
    match first_marker(ls) {
        Some(l) => Some(l),
        None => if ls.len() > 0 {
            Some(ls[0])
        } else {
            None
        },
    }
}

/// The output rows left after the two fixed header rows.
pub open spec fn data_lines(lines: Seq<Seq<char>>) -> Seq<Seq<char>> {
    if lines.len() <= 2 {
        Seq::empty()
    } else {
        lines.skip(2)
    }
}

/// What one collection cycle yields from the tool's output lines: the
/// selected data row parsed, or an error when no data row is there.
pub open spec fn spec_get_ntp_info(lines: Seq<Seq<char>>) -> Result<NtpInfo, NtpError> {
    match selected_line(data_lines(lines)) {
        Some(l) => spec_parse_ntp_line(l),
        None => Err(NtpError::NoPeerInfo),
    }
}

/// A marker line with no marker line before it is the one `first_marker`
/// finds.
pub proof fn lemma_first_marker_found(ls: Seq<Seq<char>>, k: int)
    requires
        0 <= k < ls.len(),
        is_marker_line(ls[k]),
        forall|j: int| 0 <= j < k ==> !is_marker_line(#[trigger] ls[j]),
    ensures
        first_marker(ls) == Some(ls[k]),
    decreases k,
{
    if k > 0 {
        lemma_first_marker_found(ls.drop_first(), k - 1);
    }
}

/// Without any marker line there is nothing for `first_marker` to find.
pub proof fn lemma_no_marker(ls: Seq<Seq<char>>)
    requires
        forall|j: int| 0 <= j < ls.len() ==> !is_marker_line(#[trigger] ls[j]),
    ensures
        first_marker(ls) is None,
    decreases ls.len(),
{
    if ls.len() > 0 {
        lemma_no_marker(ls.drop_first());
    }
}

/// Law: the first marker line is selected regardless of its position;
/// with no marker line the first line is selected; with no lines nothing
/// is.
pub proof fn lemma_line_selection(ls: Seq<Seq<char>>, k: int)
    ensures
        (0 <= k < ls.len() && is_marker_line(ls[k]) && (forall|j: int|
            0 <= j < k ==> !is_marker_line(#[trigger] ls[j]))) ==> selected_line(ls) == Some(
            ls[k],
        ),
        (forall|j: int| 0 <= j < ls.len() ==> !is_marker_line(#[trigger] ls[j])) && ls.len() > 0
            ==> selected_line(ls) == Some(ls[0]),
        ls.len() == 0 ==> selected_line(ls) is None,
{
    if 0 <= k < ls.len() && is_marker_line(ls[k]) && (forall|j: int|
        0 <= j < k ==> !is_marker_line(#[trigger] ls[j])) {
        lemma_first_marker_found(ls, k);
    }
    if forall|j: int| 0 <= j < ls.len() ==> !is_marker_line(#[trigger] ls[j]) {
        lemma_no_marker(ls);
    }
}

/// Law: with no data rows after the two header rows, the cycle fails
/// reporting that no peer information was found.
pub proof fn lemma_no_peer_info(lines: Seq<Seq<char>>)
    ensures
        lines.len() <= 2 ==> spec_get_ntp_info(lines) == Err::<NtpInfo, NtpError>(
            NtpError::NoPeerInfo,
        ),
{
}

/// Selects the peer row among the captured output lines (two header
/// rows, then one row per peer) and parses it.
pub fn get_ntp_info(lines: &Vec<String>) -> (r: Result<NtpInfo, NtpError>)
    ensures
        r == spec_get_ntp_info(lines.deep_view()),
{
    let ghost lv = lines.deep_view();
    proof {
        assert(lv.len() == lines@.len());
        assert forall|j: int| 0 <= j < lines@.len() implies #[trigger] lv[j] == lines@[j]@ by {}
    }
    if lines.len() <= 2 {
        return Err(NtpError::NoPeerInfo);
    }
    let ghost ds = data_lines(lv);
    proof {
        assert(ds =~= lv.skip(2));
    }
    let n = lines.len();
    let mut i: usize = 2;
    while i < n
        invariant
            2 <= i <= n,
            n == lines@.len(),
            lv == lines.deep_view(),
            lv.len() == n,
            forall|j: int| 0 <= j < lines@.len() ==> #[trigger] lv[j] == lines@[j]@,
            ds == data_lines(lv),
            ds.len() == n - 2,
            forall|j: int| 0 <= j < i - 2 ==> !is_marker_line(#[trigger] ds[j]),
        decreases n - i,
    {
        let line = &lines[i];
        let sel = if line.as_str().is_empty() {
            false
        } else {
            line.as_str().get_char(0) == '*'
        };
        proof {
            assert(ds[i - 2] == lv.skip(2)[i - 2]);
            assert(lv.skip(2)[i - 2] == lv[i as int]);
            assert(sel == is_marker_line(ds[i - 2]));
        }
        if sel {
            proof {
                lemma_first_marker_found(ds, i - 2);
            }
            return parse_ntp_line(line.clone());
        }
        i = i + 1;
    }
    proof {
        lemma_no_marker(ds);
        assert(ds[0] == lv.skip(2)[0]);
        assert(lv.skip(2)[0] == lv[2]);
    }
    parse_ntp_line(lines[2].clone())
}

} // verus!
