//! Placeholder templates: a template is text in which every `{field}`
//! placeholder is replaced by the named field's value from a record.

use vstd::prelude::*;

use crate::errors::TemplateError;
use crate::errors::TemplateErrorView;
use crate::record::spec_lookup;
use crate::record::Fields;
use crate::record::NormalizedRecord;

verus! {

/// The position of the first `{` or `}` in `t` at or after `from`, or
/// `t.len()` when there is none.
pub open spec fn scan_name(t: Seq<char>, from: int) -> int
    decreases t.len() - from,
{
    if from >= t.len() {
        t.len() as int
    } else if t[from] == '{' || t[from] == '}' {
        from
    } else {
        scan_name(t, from + 1)
    }
}

/// What `scan_name` finds: a position no earlier than `from`, no brace
/// before it, and a brace at it unless the template ended first.
pub proof fn lemma_scan_name(t: Seq<char>, from: int)
    requires
        from <= t.len(),
    ensures
        from <= scan_name(t, from) <= t.len(),
        forall|k: int| from <= k < scan_name(t, from) ==> !(t[k] == '{' || t[k] == '}'),
        scan_name(t, from) < t.len() ==> (t[scan_name(t, from)] == '{' || t[scan_name(t, from)]
            == '}'),
    decreases t.len() - from,
{
    if from >= t.len() {
    } else if t[from] == '{' || t[from] == '}' {
    } else {
        lemma_scan_name(t, from + 1);
    }
}

/// A position with no brace between `from` and it, and a brace at it
/// unless the template ended, is exactly what `scan_name` finds.
pub proof fn lemma_scan_name_pins(t: Seq<char>, from: int, j: int)
    requires
        0 <= from <= j <= t.len(),
        forall|k: int| from <= k < j ==> !(t[k] == '{' || t[k] == '}'),
        j < t.len() ==> (t[j] == '{' || t[j] == '}'),
    ensures
        scan_name(t, from) == j,
    decreases j - from,
{
    if from < j {
        lemma_scan_name_pins(t, from + 1, j);
    }
}

/// Substitution of the template suffix that starts at `i`. A `}` outside a
/// placeholder, a `{` that is not closed before the next brace, and a
/// placeholder naming a field the record lacks each fail with the matching
/// error; otherwise every placeholder is replaced by its field's value.
pub open spec fn spec_subst_from(t: Seq<char>, fields: Fields, i: int) -> Result<
    Seq<char>,
    TemplateErrorView,
>
    decreases t.len() - i,
    via spec_subst_from_decreases
{
    if i >= t.len() {
        Ok(Seq::<char>::empty())
    } else if t[i] == '}' {
        Err(TemplateErrorView::UnmatchedClose)
    } else if t[i] == '{' {
        let j = scan_name(t, i + 1);
        if j >= t.len() || t[j] == '{' {
            Err(TemplateErrorView::UnmatchedOpen)
        } else {
            let name = t.subrange(i + 1, j);
            match spec_lookup(fields, name) {
                None => Err(TemplateErrorView::MissingField(name)),
                Some(v) => match spec_subst_from(t, fields, j + 1) {
                    Ok(rest) => Ok(v + rest),
                    Err(e) => Err(e),
                },
            }
        }
    } else {
        match spec_subst_from(t, fields, i + 1) {
            Ok(rest) => Ok(seq![t[i]] + rest),
            Err(e) => Err(e),
        }
    }
}

#[via_fn]
proof fn spec_subst_from_decreases(t: Seq<char>, fields: Fields, i: int) {
    if i < t.len() && t[i] == '{' {
        lemma_scan_name(t, i + 1);
    }
}

/// Substitution of the whole template against a record's fields.
pub open spec fn spec_subst(t: Seq<char>, fields: Fields) -> Result<Seq<char>, TemplateErrorView> {
    spec_subst_from(t, fields, 0)
}

/// Replaces every `{field}` placeholder in `template` with the value of
/// that field in `rec`, exactly as `spec_subst` describes.
pub fn substitute(template: &str, rec: &NormalizedRecord) -> (r: Result<String, TemplateError>)
    ensures
        match r {
            Ok(out) => spec_subst(template@, rec@) == Ok::<Seq<char>, TemplateErrorView>(out@),
            Err(e) => spec_subst(template@, rec@) == Err::<Seq<char>, TemplateErrorView>(e@),
        },
{
    let n = template.unicode_len();
    let mut out = String::new();
    let mut i: usize = 0;
    while i < n
        invariant
            n == template@.len(),
            i <= n,
            spec_subst_from(template@, rec@, 0) == match spec_subst_from(
                template@,
                rec@,
                i as int,
            ) {
                Ok(rest) => Ok::<Seq<char>, TemplateErrorView>(out@ + rest),
                Err(e) => Err::<Seq<char>, TemplateErrorView>(e),
            },
        decreases n - i,
    {
        let c = template.get_char(i);
        if c == '}' {
            return Err(TemplateError::UnmatchedClose);
        } else if c == '{' {
            let mut j: usize = i + 1;
            while j < n
                invariant
                    n == template@.len(),
                    i + 1 <= j <= n,
                    forall|k: int| i + 1 <= k < j ==> !(template@[k] == '{' || template@[k] == '}'),
                ensures
                    i + 1 <= j <= n,
                    n == template@.len(),
                    forall|k: int| i + 1 <= k < j ==> !(template@[k] == '{' || template@[k] == '}'),
                    j < n ==> (template@[j as int] == '{' || template@[j as int] == '}'),
                decreases n - j,
            {
                let cj = template.get_char(j);
                if cj == '{' || cj == '}' {
                    break;
                }
                j += 1;
            }
            proof {
                lemma_scan_name_pins(template@, i as int + 1, j as int);
            }
            if j == n {
                return Err(TemplateError::UnmatchedOpen);
            }
            let cj = template.get_char(j);
            if cj == '{' {
                return Err(TemplateError::UnmatchedOpen);
            }
            let name = template.substring_char(i + 1, j).to_owned();
            let ghost out0 = out@;
            match rec.get(&name) {
                None => {
                    return Err(TemplateError::MissingField(name));
                },
                Some(v) => {
                    out.append(v.as_str());
                    proof {
                        let rest_r = spec_subst_from(template@, rec@, j as int + 1);
                        if rest_r is Ok {
                            let rest = rest_r->Ok_0;
                            assert((out0 + v@) + rest =~= out0 + (v@ + rest));
                        }
                    }
                },
            }
            i = j + 1;
        } else {
            let piece = template.substring_char(i, i + 1);
            let ghost out0 = out@;
            out.append(piece);
            proof {
                assert(piece@ =~= seq![template@[i as int]]);
                let rest_r = spec_subst_from(template@, rec@, i as int + 1);
                if rest_r is Ok {
                    let rest = rest_r->Ok_0;
                    assert((out0 + piece@) + rest =~= out0 + (seq![template@[i as int]] + rest));
                }
            }
            i += 1;
        }
    }
    proof {
        assert(out@ + Seq::<char>::empty() =~= out@);
    }
    Ok(out)
}

/// The template suffix starting at `i` fits `fields`: every `{` is closed
/// by a `}` before any other brace, no `}` stands outside a placeholder,
/// and every placeholder names a field that `fields` has.
pub open spec fn fits_from(t: Seq<char>, fields: Fields, i: int) -> bool
    decreases t.len() - i,
    via fits_from_decreases
{
    if i >= t.len() {
        true
    } else if t[i] == '}' {
        false
    } else if t[i] == '{' {
        let j = scan_name(t, i + 1);
        &&& j < t.len()
        &&& t[j] == '}'
        &&& spec_lookup(fields, t.subrange(i + 1, j)) is Some
        &&& fits_from(t, fields, j + 1)
    } else {
        fits_from(t, fields, i + 1)
    }
}

#[via_fn]
proof fn fits_from_decreases(t: Seq<char>, fields: Fields, i: int) {
    if i < t.len() && t[i] == '{' {
        lemma_scan_name(t, i + 1);
    }
}

/// The whole template fits `fields`.
pub open spec fn template_fits(t: Seq<char>, fields: Fields) -> bool {
    fits_from(t, fields, 0)
}

/// Whether `s` contains a `{` or a `}`.
pub open spec fn has_brace(s: Seq<char>) -> bool {
    exists|k: int| 0 <= k < s.len() && (s[k] == '{' || s[k] == '}')
}

/// All field values of `fields` are free of braces.
pub open spec fn values_brace_free(fields: Fields) -> bool {
    forall|k: int| 0 <= k < fields.len() ==> !has_brace(#[trigger] fields[k].1)
}

proof fn lemma_no_brace_concat(a: Seq<char>, b: Seq<char>)
    requires
        !has_brace(a),
        !has_brace(b),
    ensures
        !has_brace(a + b),
{
    assert forall|k: int| 0 <= k < (a + b).len() implies !((a + b)[k] == '{' || (a + b)[k]
        == '}') by {
        if k < a.len() {
            assert((a + b)[k] == a[k]);
        } else {
            assert((a + b)[k] == b[k - a.len()]);
        }
    }
}

/// A value found by lookup is one of the values of the list.
proof fn lemma_lookup_in_values<V>(entries: Seq<(Seq<char>, V)>, key: Seq<char>)
    requires
        spec_lookup(entries, key) is Some,
    ensures
        exists|j: int|
            0 <= j < entries.len() && #[trigger] entries[j].1 == spec_lookup(entries, key)->Some_0,
    decreases entries.len(),
{
    if entries.last().0 == key {
        assert(entries[entries.len() - 1].1 == spec_lookup(entries, key)->Some_0);
    } else {
        lemma_lookup_in_values(entries.drop_last(), key);
        let j = choose|j: int|
            0 <= j < entries.drop_last().len() && #[trigger] entries.drop_last()[j].1
                == spec_lookup(entries.drop_last(), key)->Some_0;
        assert(entries[j].1 == spec_lookup(entries, key)->Some_0);
    }
}

proof fn lemma_subst_fits_from(t: Seq<char>, fields: Fields, i: int)
    requires
        0 <= i <= t.len(),
        fits_from(t, fields, i),
    ensures
        spec_subst_from(t, fields, i) is Ok,
        values_brace_free(fields) ==> !has_brace(spec_subst_from(t, fields, i)->Ok_0),
    decreases t.len() - i,
{
    if i >= t.len() {
        assert(!has_brace(Seq::<char>::empty()));
    } else if t[i] == '{' {
        lemma_scan_name(t, i + 1);
        let j = scan_name(t, i + 1);
        let name = t.subrange(i + 1, j);
        let v = spec_lookup(fields, name)->Some_0;
        lemma_subst_fits_from(t, fields, j + 1);
        if values_brace_free(fields) {
            lemma_lookup_in_values(fields, name);
            lemma_no_brace_concat(v, spec_subst_from(t, fields, j + 1)->Ok_0);
        }
    } else {
        lemma_subst_fits_from(t, fields, i + 1);
        if values_brace_free(fields) {
            assert(!has_brace(seq![t[i]]));
            lemma_no_brace_concat(seq![t[i]], spec_subst_from(t, fields, i + 1)->Ok_0);
        }
    }
}

/// A template whose placeholders all name fields of the record, with every
/// brace part of a well-formed placeholder, substitutes successfully; and
/// when no field value itself contains a brace, the output is free of any
/// `{` or `}` placeholder syntax.
pub proof fn lemma_substitution_succeeds(t: Seq<char>, fields: Fields)
    requires
        template_fits(t, fields),
    ensures
        spec_subst(t, fields) is Ok,
        values_brace_free(fields) ==> !has_brace(spec_subst(t, fields)->Ok_0),
{
    lemma_subst_fits_from(t, fields, 0);
}

} // verus!
