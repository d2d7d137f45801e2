//! The manual-refresh request: a comma-separated source list is split,
//! each token is trimmed and lowercased, and the recognized source names
//! are kept in order; unknown tokens are dropped. The caller performs the
//! per-source fetches and reports only which sources were attempted.
use vstd::prelude::*;
use vstd::string::StrSliceExecFns;
use crate::source::SourceKind;
use crate::source::parse_source_spec;

verus! {

/// Whether a token still holds a separator (a split result never does).
pub open spec fn has_comma(t: Seq<char>) -> bool {
    exists|i: int| 0 <= i < t.len() && t[i] == ','
}

/// Tokens joined back with the separator: with the no-separator condition
/// this pins the split of a text uniquely.
pub open spec fn join_commas(segs: Seq<Seq<char>>) -> Seq<char>
    decreases segs.len(),
{
    if segs.len() == 0 {
        Seq::empty()
    } else if segs.len() == 1 {
        segs[0]
    } else {
        segs[0] + seq![','] + join_commas(segs.drop_first())
    }
}

/// The views of a token list.
pub open spec fn token_views(toks: Seq<String>) -> Seq<Seq<char>> {
    toks.map_values(|s: String| s@)
}

proof fn lemma_join_push(segs: Seq<Seq<char>>, t: Seq<char>)
    ensures
        join_commas(segs.push(t)) =~= if segs.len() == 0 {
            t
        } else {
            join_commas(segs) + seq![','] + t
        },
    decreases segs.len(),
{
    if segs.len() == 0 {
        assert(segs.push(t)[0] =~= t);
    } else {
        assert(segs.push(t).drop_first() =~= segs.drop_first().push(t));
        lemma_join_push(segs.drop_first(), t);
        if segs.len() == 1 {
            assert(join_commas(segs) == segs[0]);
        }
    }
}

/// Splits a text on commas: at least one token, none holding a comma,
/// and joining them back with commas restores the text.
pub fn split_commas(s: &String) -> (r: Vec<String>)
    ensures
        r@.len() >= 1,
        forall|k: int| 0 <= k < r@.len() ==> !has_comma((#[trigger] r@[k])@),
        join_commas(token_views(r@)) == s@,
{
    let text = s.as_str();
    let n: usize = text.unicode_len();
    let mut segs: Vec<String> = Vec::new();
    let mut seg_start: usize = 0;
    let mut i: usize = 0;
    while i < n
        invariant
            seg_start <= i <= n,
            n == text@.len(),
            text@ == s@,
            forall|k: int| 0 <= k < segs@.len() ==> !has_comma((#[trigger] segs@[k])@),
            if segs@.len() == 0 {
                seg_start == 0
            } else {
                join_commas(token_views(segs@)) + seq![','] =~= s@.subrange(0, seg_start as int)
            },
            forall|k: int| seg_start <= k < i ==> s@[k] != ',',
        decreases n - i,
    {
        let c = text.get_char(i);
        if c == ',' {
            let seg = text.substring_char(seg_start, i).to_owned();
            proof {
                let ghost old_views = token_views(segs@);
                lemma_join_push(old_views, seg@);
                assert(token_views(segs@.push(seg)) =~= old_views.push(seg@));
                if segs@.len() == 0 {
                    assert(join_commas(old_views.push(seg@)) + seq![','] =~= s@.subrange(
                        0,
                        i + 1,
                    ));
                } else {
                    assert(join_commas(old_views) + seq![','] + seg@ + seq![','] =~= s@.subrange(
                        0,
                        i + 1,
                    ));
                    assert(join_commas(old_views.push(seg@)) + seq![','] =~= s@.subrange(
                        0,
                        i + 1,
                    ));
                }
            }
            segs.push(seg);
            seg_start = i + 1;
        }
        i = i + 1;
    }
    let last = text.substring_char(seg_start, n).to_owned();
    proof {
        let ghost old_views = token_views(segs@);
        lemma_join_push(old_views, last@);
        assert(token_views(segs@.push(last)) =~= old_views.push(last@));
        if segs@.len() == 0 {
            assert(last@ =~= s@);
        } else {
            assert(join_commas(old_views) + seq![','] + last@ =~= s@);
        }
    }
    segs.push(last);
    segs
}

/// The split characterization is exact: two comma-free token lists with
/// the same joined text are the same list, so `split_commas`' contract
/// determines its result uniquely.
pub proof fn lemma_split_unique(a: Seq<Seq<char>>, b: Seq<Seq<char>>)
    requires
        a.len() >= 1,
        b.len() >= 1,
        forall|k: int| 0 <= k < a.len() ==> !has_comma(#[trigger] a[k]),
        forall|k: int| 0 <= k < b.len() ==> !has_comma(#[trigger] b[k]),
        join_commas(a) == join_commas(b),
    ensures
        a =~~= b,
    decreases a.len(),
{
    let j = join_commas(a);
    if a.len() == 1 && b.len() == 1 {
        assert(a[0] == j && b[0] == j);
    } else if a.len() == 1 {
        assert(j == b[0] + seq![','] + join_commas(b.drop_first()));
        assert(j[b[0].len() as int] == ',');
        assert(has_comma(a[0]));
        assert(false);
    } else if b.len() == 1 {
        assert(j == a[0] + seq![','] + join_commas(a.drop_first()));
        assert(j[a[0].len() as int] == ',');
        assert(has_comma(b[0]));
        assert(false);
    } else {
        assert(j == a[0] + seq![','] + join_commas(a.drop_first()));
        assert(j == b[0] + seq![','] + join_commas(b.drop_first()));
        assert(j[a[0].len() as int] == ',');
        assert(j[b[0].len() as int] == ',');
        if a[0].len() < b[0].len() {
            assert(b[0][a[0].len() as int] == ',');
            assert(has_comma(b[0]));
            assert(false);
        }
        if b[0].len() < a[0].len() {
            assert(a[0][b[0].len() as int] == ',');
            assert(has_comma(a[0]));
            assert(false);
        }
        assert(a[0] =~= b[0]) by {
            assert(forall|i: int| 0 <= i < a[0].len() ==> #[trigger] a[0][i] == j[i]);
            assert(forall|i: int| 0 <= i < b[0].len() ==> #[trigger] b[0][i] == j[i]);
        }
        assert(join_commas(a.drop_first()) =~= join_commas(b.drop_first())) by {
            assert(join_commas(a.drop_first()) =~= j.skip(a[0].len() as int + 1));
            assert(join_commas(b.drop_first()) =~= j.skip(b[0].len() as int + 1));
        }
        lemma_split_unique(a.drop_first(), b.drop_first());
        assert(a =~~= b) by {
            assert(forall|k: int|
                1 <= k < a.len() ==> #[trigger] a[k] == a.drop_first()[k - 1]);
            assert(forall|k: int|
                1 <= k < b.len() ==> #[trigger] b[k] == b.drop_first()[k - 1]);
        }
    }
}

/// What a token becomes before matching: trimmed, then lowercased.
pub open spec fn canon(t: Seq<char>) -> Seq<char> {
    lower_of(trim_of(t))
}

/// The lowercase form of a text, as `str::to_lowercase` computes it.
pub uninterp spec fn lower_of(s: Seq<char>) -> Seq<char>;

/// A text without leading and trailing whitespace, as `str::trim`
/// computes it.
pub uninterp spec fn trim_of(s: Seq<char>) -> Seq<char>;

/// Relies on str::to_lowercase: the result depends on the characters
/// alone, and an empty text stays empty.
#[verifier::external_body]
fn lowercase(s: &str) -> (r: String)
    ensures
        r@ == lower_of(s@),
        s@.len() == 0 ==> r@.len() == 0,
{
    s.to_lowercase()
}

/// Relies on str::trim: a substring of the input, so never longer, and
/// depending on the characters alone.
#[verifier::external_body]
fn trim_text(s: &str) -> (r: String)
    ensures
        r@ == trim_of(s@),
        r@.len() <= s@.len(),
{
    s.trim().to_owned()
}

/// The sources a token list selects: each token trimmed, lowercased, and
/// kept when it names a source, in order, duplicates included.
pub open spec fn plan_spec(tokens: Seq<Seq<char>>) -> Seq<SourceKind>
    decreases tokens.len(),
{
    if tokens.len() == 0 {
        Seq::empty()
    } else {
        match parse_source_spec(canon(tokens[0])) {
            Some(s) => seq![s] + plan_spec(tokens.drop_first()),
            None => plan_spec(tokens.drop_first()),
        }
    }
}

proof fn lemma_plan_take_step(tokens: Seq<Seq<char>>, j: int)
    requires
        0 <= j < tokens.len(),
    ensures
        plan_spec(tokens.take(j + 1)) =~= match parse_source_spec(canon(tokens[j])) {
            Some(s) => plan_spec(tokens.take(j)).push(s),
            None => plan_spec(tokens.take(j)),
        },
    decreases j,
{
    if j == 0 {
        assert(tokens.take(1)[0] == tokens[0]);
        assert(tokens.take(1).drop_first() =~= tokens.take(0));
    } else {
        assert(tokens.take(j + 1)[0] == tokens[0]);
        assert(tokens.take(j + 1).drop_first() =~= tokens.drop_first().take(j));
        assert(tokens.take(j)[0] == tokens[0]);
        assert(tokens.take(j).drop_first() =~= tokens.drop_first().take(j - 1));
        lemma_plan_take_step(tokens.drop_first(), j - 1);
        assert(tokens.drop_first()[j - 1] == tokens[j]);
    }
}

/// Keeps the recognized sources of a token list, in order.
pub fn refresh_plan(tokens: &Vec<String>) -> (r: Vec<SourceKind>)
    ensures
        r@ == plan_spec(token_views(tokens@)),
{
    let ghost tv = token_views(tokens@);
    let mut out: Vec<SourceKind> = Vec::new();
    let mut j: usize = 0;
    while j < tokens.len()
        invariant
            j <= tokens@.len(),
            tv == token_views(tokens@),
            tv.len() == tokens@.len(),
            forall|k: int| 0 <= k < tokens@.len() ==> #[trigger] tv[k] == tokens@[k]@,
            out@ =~= plan_spec(tv.take(j as int)),
        decreases tokens@.len() - j,
    {
        proof {
            lemma_plan_take_step(tv, j as int);
        }
        let trimmed = trim_text(tokens[j].as_str());
        let canonical = lowercase(trimmed.as_str());
        match SourceKind::parse(&canonical) {
            Some(s) => {
                out.push(s);
            },
            None => {},
        }
        j = j + 1;
    }
    proof {
        assert(tv.take(tv.len() as int) =~= tv);
    }
    out
}

/// Parses a whole comma-separated refresh request: the recognized sources
/// of its tokens, where the tokens are the unique comma-free split of the
/// text.
pub fn parse_refresh_list(raw: &String) -> (r: Vec<SourceKind>)
    ensures
        exists|toks: Seq<Seq<char>>|
            {
                &&& forall|k: int| 0 <= k < toks.len() ==> !has_comma(#[trigger] toks[k])
                &&& join_commas(toks) == raw@
                &&& r@ == #[trigger] plan_spec(toks)
            },
{
    let tokens = split_commas(raw);
    let r = refresh_plan(&tokens);
    proof {
        let toks = token_views(tokens@);
        assert(forall|k: int| 0 <= k < toks.len() ==> !has_comma(#[trigger] toks[k])) by {
            assert(forall|k: int| 0 <= k < tokens@.len() ==> #[trigger] toks[k] == tokens@[k]@);
        }
        assert(r@ == plan_spec(toks));
    }
    r
}

} // verus!
