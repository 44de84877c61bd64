//! Rendering: every requested identifier is looked up in the index and
//! substituted into the template; the results are joined by the separator
//! and closed with one line break.

use vstd::prelude::*;

use crate::errors::Error;
use crate::errors::ErrorView;
use crate::index::normalized_views;
use crate::index::raw_views;
use crate::index::spec_index;
use crate::index::RecordIndex;
use crate::record::spec_lookup;
use crate::record::Fields;
use crate::record::RawFields;
use crate::record::RawRecord;
use crate::template::spec_subst;
use crate::template::substitute;

verus! {

/// The line break that closes a non-empty rendering.
pub open spec fn newline() -> Seq<char> {
    "\n"@
}

/// The ghost views of the requested identifiers, in input order.
pub open spec fn request_views(reqs: Seq<String>) -> Seq<Seq<char>> {
    reqs.map_values(|s: String| s@)
}

/// Rendering of the requests from position `i` on, `0 <= i < reqs.len()`:
/// the first identifier not in the index fails the whole rendering, naming
/// that identifier, and so does the first template fault; otherwise each
/// record's substitution is emitted, the separator between successive
/// records and a line break after the last.
pub open spec fn spec_render_from(
    reqs: Seq<Seq<char>>,
    entries: Seq<(Seq<char>, Fields)>,
    t: Seq<char>,
    sep: Seq<char>,
    i: int,
) -> Result<Seq<char>, ErrorView>
    decreases reqs.len() - i,
{
    if i < 0 || i >= reqs.len() {
        Ok(Seq::<char>::empty())
    } else {
        match spec_lookup(entries, reqs[i]) {
            None => Err(ErrorView::Lookup(reqs[i])),
            Some(rec) => match spec_subst(t, rec) {
                Err(e) => Err(ErrorView::Format(e)),
                Ok(seg) => if i == reqs.len() - 1 {
                    Ok(seg + newline())
                } else {
                    match spec_render_from(reqs, entries, t, sep, i + 1) {
                        Ok(rest) => Ok(seg + sep + rest),
                        Err(e) => Err(e),
                    }
                },
            },
        }
    }
}

/// Rendering of all requests: empty input renders as empty output, with
/// no line break, exactly as an empty pass over the requests would print.
pub open spec fn spec_render(
    reqs: Seq<Seq<char>>,
    entries: Seq<(Seq<char>, Fields)>,
    t: Seq<char>,
    sep: Seq<char>,
) -> Result<Seq<char>, ErrorView> {
    if reqs.len() == 0 {
        Ok(Seq::<char>::empty())
    } else {
        spec_render_from(reqs, entries, t, sep, 0)
    }
}

/// Renders every requested identifier against `index`, exactly as
/// `spec_render` describes: in input order, separator between successive
/// records, one closing line break, and the first lookup or template
/// fault failing the whole run with no output.
pub fn render(index: &RecordIndex, requests: &Vec<String>, template: &str, separator: &str) -> (r:
    Result<String, Error>)
    ensures
        match r {
            Ok(out) => spec_render(request_views(requests@), index@, template@, separator@)
                == Ok::<Seq<char>, ErrorView>(out@),
            Err(e) => spec_render(request_views(requests@), index@, template@, separator@)
                == Err::<Seq<char>, ErrorView>(e@),
        },
{
    let ghost reqs = request_views(requests@);
    let mut out = String::new();
    if requests.len() == 0 {
        return Ok(out);
    }
    let mut i: usize = 0;
    while i < requests.len()
        invariant
            reqs == request_views(requests@),
            reqs.len() == requests@.len(),
            0 < reqs.len(),
            i <= reqs.len(),
            i < reqs.len() ==> spec_render_from(reqs, index@, template@, separator@, 0) == match
                spec_render_from(reqs, index@, template@, separator@, i as int) {
                Ok(rest) => Ok::<Seq<char>, ErrorView>(out@ + rest),
                Err(e) => Err::<Seq<char>, ErrorView>(e),
            },
            i >= reqs.len() ==> spec_render_from(reqs, index@, template@, separator@, 0)
                == Ok::<Seq<char>, ErrorView>(out@),
        decreases requests.len() - i,
    {
        let current = &requests[i];
        proof {
            assert(reqs[i as int] == current@);
        }
        let rec = match index.get(current) {
            None => {
                return Err(Error::Lookup(current.clone()));
            },
            Some(rec) => rec,
        };
        let seg = match substitute(template, rec) {
            Err(e) => {
                return Err(Error::Format(e));
            },
            Ok(seg) => seg,
        };
        let ghost out0 = out@;
        out.append(seg.as_str());
        if i + 1 == requests.len() {
            out.append("\n");
            proof {
                assert((out0 + seg@) + newline() =~= out0 + (seg@ + newline()));
            }
        } else {
            out.append(separator);
            proof {
                let rest_r = spec_render_from(reqs, index@, template@, separator@, i as int + 1);
                if rest_r is Ok {
                    let rest = rest_r->Ok_0;
                    assert(((out0 + seg@) + separator@) + rest =~= out0 + ((seg@ + separator@)
                        + rest));
                }
            }
        }
        i += 1;
    }
    Ok(out)
}

/// The run from already-parsed raw records: normalize and index them,
/// then render the requests.
pub open spec fn spec_run(
    raws: Seq<RawFields>,
    reqs: Seq<Seq<char>>,
    t: Seq<char>,
    sep: Seq<char>,
) -> Result<Seq<char>, ErrorView> {
    match spec_index(normalized_views(raws)) {
        None => Err(ErrorView::MissingSymbol),
        Some(entries) => spec_render(reqs, entries, t, sep),
    }
}

/// Builds the index from `records` and renders `requests` through
/// `template` and `separator`, exactly as `spec_run` describes.
pub fn run_query(
    records: &Vec<RawRecord>,
    requests: &Vec<String>,
    template: &str,
    separator: &str,
) -> (r: Result<String, Error>)
    ensures
        match r {
            Ok(out) => spec_run(raw_views(records@), request_views(requests@), template@,
                separator@) == Ok::<Seq<char>, ErrorView>(out@),
            Err(e) => spec_run(raw_views(records@), request_views(requests@), template@,
                separator@) == Err::<Seq<char>, ErrorView>(e@),
        },
{
    let index = match RecordIndex::build(records) {
        Ok(index) => index,
        Err(e) => {
            return Err(e);
        },
    };
    render(&index, requests, template, separator)
}

/// The substituted segment of each request, in input order; meaningful
/// when every request is in the index and substitutes successfully.
pub open spec fn segments_of(
    reqs: Seq<Seq<char>>,
    entries: Seq<(Seq<char>, Fields)>,
    t: Seq<char>,
) -> Seq<Seq<char>> {
    Seq::new(reqs.len(), |i: int| spec_subst(t, spec_lookup(entries, reqs[i])->Some_0)->Ok_0)
}

/// Segments joined by the separator: one occurrence of the separator
/// between each pair of successive segments, and none elsewhere.
pub open spec fn join_with(segs: Seq<Seq<char>>, sep: Seq<char>) -> Seq<char>
    decreases segs.len(),
{
    if segs.len() == 0 {
        Seq::<char>::empty()
    } else if segs.len() == 1 {
        segs[0]
    } else {
        segs[0] + sep + join_with(segs.drop_first(), sep)
    }
}

proof fn lemma_render_joins_from(
    reqs: Seq<Seq<char>>,
    entries: Seq<(Seq<char>, Fields)>,
    t: Seq<char>,
    sep: Seq<char>,
    i: int,
)
    requires
        0 <= i < reqs.len(),
        forall|k: int| 0 <= k < reqs.len() ==> #[trigger] spec_lookup(entries, reqs[k]) is Some,
        forall|k: int|
            0 <= k < reqs.len() ==> spec_subst(t, #[trigger] spec_lookup(entries, reqs[k])->Some_0)
                is Ok,
    ensures
        spec_render_from(reqs, entries, t, sep, i) == Ok::<Seq<char>, ErrorView>(
            join_with(segments_of(reqs, entries, t).skip(i), sep) + newline(),
        ),
    decreases reqs.len() - i,
{
    let segs = segments_of(reqs, entries, t);
    if i == reqs.len() - 1 {
        assert(segs.skip(i) =~= seq![segs[i]]);
    } else {
        lemma_render_joins_from(reqs, entries, t, sep, i + 1);
        assert(segs.skip(i).drop_first() =~= segs.skip(i + 1));
        assert(segs.skip(i)[0] == segs[i]);
        let seg = segs[i];
        let rest = join_with(segs.skip(i + 1), sep);
        assert((seg + sep + rest) + newline() =~= seg + sep + (rest + newline()));
    }
}

/// Requesting identifiers that are all in the index, with a template each
/// of their records satisfies, renders one segment per request, joined by
/// the separator between successive segments and closed by one line break.
pub proof fn lemma_render_joins(
    reqs: Seq<Seq<char>>,
    entries: Seq<(Seq<char>, Fields)>,
    t: Seq<char>,
    sep: Seq<char>,
)
    requires
        reqs.len() > 0,
        forall|k: int| 0 <= k < reqs.len() ==> #[trigger] spec_lookup(entries, reqs[k]) is Some,
        forall|k: int|
            0 <= k < reqs.len() ==> spec_subst(t, #[trigger] spec_lookup(entries, reqs[k])->Some_0)
                is Ok,
    ensures
        spec_render(reqs, entries, t, sep) == Ok::<Seq<char>, ErrorView>(
            join_with(segments_of(reqs, entries, t), sep) + newline(),
        ),
        segments_of(reqs, entries, t).len() == reqs.len(),
{
    lemma_render_joins_from(reqs, entries, t, sep, 0);
    assert(segments_of(reqs, entries, t).skip(0) =~= segments_of(reqs, entries, t));
}

/// Requesting an identifier that is absent from the index, when every
/// earlier request was found and substituted, fails the whole rendering
/// with a lookup fault naming exactly that identifier; no output value
/// exists beside it.
pub proof fn lemma_render_absent(
    reqs: Seq<Seq<char>>,
    entries: Seq<(Seq<char>, Fields)>,
    t: Seq<char>,
    sep: Seq<char>,
    i: int,
)
    requires
        0 <= i < reqs.len(),
        forall|k: int| 0 <= k < i ==> #[trigger] spec_lookup(entries, reqs[k]) is Some,
        forall|k: int|
            0 <= k < i ==> spec_subst(t, #[trigger] spec_lookup(entries, reqs[k])->Some_0) is Ok,
        spec_lookup(entries, reqs[i]) is None,
    ensures
        spec_render(reqs, entries, t, sep) == Err::<Seq<char>, ErrorView>(
            ErrorView::Lookup(reqs[i]),
        ),
{
    lemma_render_absent_from(reqs, entries, t, sep, i, 0);
}

proof fn lemma_render_absent_from(
    reqs: Seq<Seq<char>>,
    entries: Seq<(Seq<char>, Fields)>,
    t: Seq<char>,
    sep: Seq<char>,
    i: int,
    k: int,
)
    requires
        0 <= k <= i < reqs.len(),
        forall|m: int| 0 <= m < i ==> #[trigger] spec_lookup(entries, reqs[m]) is Some,
        forall|m: int|
            0 <= m < i ==> spec_subst(t, #[trigger] spec_lookup(entries, reqs[m])->Some_0) is Ok,
        spec_lookup(entries, reqs[i]) is None,
    ensures
        spec_render_from(reqs, entries, t, sep, k) == Err::<Seq<char>, ErrorView>(
            ErrorView::Lookup(reqs[i]),
        ),
    decreases i - k,
{
    if k < i {
        lemma_render_absent_from(reqs, entries, t, sep, i, k + 1);
    }
}

} // verus!
