//! Names of result columns generated from templates such as `core#_dynamic`,
//! where `#` stands for the index of a component.

use vstd::prelude::*;

use crate::text;
use crate::text::{find_char, format_usize};

verus! {

/// The name that `template` gives the component `i`: the template with its
/// first `#` replaced by `i` in decimal.
pub open spec fn expand(template: Seq<char>, i: nat) -> Seq<char> {
    let k = text::find(template, '#')->0;
    template.take(k) + text::decimal(i) + template.skip(k + 1)
}

/// The names of the first `count` components, each named by every variant
/// in turn.
pub open spec fn block(variants: Seq<Seq<char>>, count: nat) -> Seq<Seq<char>>
    decreases count,
{
    if count == 0 {
        Seq::empty()
    } else {
        block(variants, (count - 1) as nat) + variants.map_values(
            |v: Seq<char>| expand(v, (count - 1) as nat),
        )
    }
}

/// The names that a list of templates generates, template after template.
pub open spec fn spec_generate(templates: Seq<(Seq<Seq<char>>, nat)>) -> Seq<Seq<char>>
    decreases templates.len(),
{
    if templates.len() == 0 {
        Seq::empty()
    } else {
        spec_generate(templates.drop_last()) + block(templates.last().0, templates.last().1)
    }
}

/// The views of a list of strings.
pub open spec fn string_views(v: Seq<String>) -> Seq<Seq<char>> {
    v.map_values(|s: String| s@)
}

/// The views of a list of string slices.
pub open spec fn str_views(v: Seq<&str>) -> Seq<Seq<char>> {
    v.map_values(|s: &str| s@)
}

/// The content of a list of templates with counts.
pub open spec fn templates_view(t: Seq<(&[&str], usize)>) -> Seq<(Seq<Seq<char>>, nat)> {
    t.map_values(|p: (&[&str], usize)| (str_views(p.0@), p.1 as nat))
}

/// Whether every template holds a `#`.
pub open spec fn well_formed(t: Seq<(&[&str], usize)>) -> bool {
    forall|i: int, j: int|
        0 <= i < t.len() && 0 <= j < t[i].0@.len() ==> (#[trigger] t[i].0@[j])@.contains('#')
}

/// The name of component `i` is the template with its first `#` replaced by
/// the full decimal index `i`: the text before the `#`, then `i`, then the
/// text after it.
pub proof fn law_expand(before: Seq<char>, after: Seq<char>, i: nat)
    requires
        !before.contains('#'),
    ensures
        expand(before + seq!['#'] + after, i) == before + text::decimal(i) + after,
{
    let t = before + seq!['#'] + after;
    let k = before.len() as int;
    assert(t[k] == '#');
    assert forall|j: int| 0 <= j < k implies t[j] != '#' by {
        assert(t[j] == before[j]);
    }
    assert(text::is_first(t, '#', k));
    text::lemma_find_is(t, '#', k);
    assert(t.take(k) =~= before);
    assert(t.skip(k + 1) =~= after);
}

/// A template names different components differently: the names of two
/// different indices differ.
pub proof fn law_names_distinct(template: Seq<char>, i: nat, j: nat)
    requires
        template.contains('#'),
        i != j,
    ensures
        expand(template, i) != expand(template, j),
{
    text::lemma_find_first(template, '#');
    let k = text::find(template, '#')->0;
    let before = template.take(k);
    let after = template.skip(k + 1);
    let a = before + text::decimal(i) + after;
    let b = before + text::decimal(j) + after;
    text::lemma_decimal_value(i);
    text::lemma_decimal_value(j);
    if a == b {
        let di = text::decimal(i);
        let dj = text::decimal(j);
        assert(di.len() == dj.len()) by {
            assert(a.len() == b.len());
        }
        assert(di =~= a.subrange(before.len() as int, (before.len() + di.len()) as int));
        assert(dj =~= b.subrange(before.len() as int, (before.len() + dj.len()) as int));
        assert(di == dj);
    }
}

/// The names of a template list for `count` components are `count` rounds
/// of the variants: the name at `i * |variants| + j` is variant `j` with the
/// index `i`.
pub proof fn law_block(variants: Seq<Seq<char>>, count: nat, i: int, j: int)
    requires
        0 <= i < count,
        0 <= j < variants.len(),
    ensures
        block(variants, count).len() == count * variants.len(),
        block(variants, count)[i * variants.len() + j] == expand(variants[j], i as nat),
    decreases count,
{
    lemma_block_len(variants, count);
    let n = variants.len();
    if i < count - 1 {
        law_block(variants, (count - 1) as nat, i, j);
        lemma_block_len(variants, (count - 1) as nat);
        assert(i * n + j < (count - 1) * n) by (nonlinear_arith)
            requires
                i < count - 1,
                j < n,
        ;
    } else {
        lemma_block_len(variants, (count - 1) as nat);
        assert(i * n == (count - 1) * n);
    }
}

proof fn lemma_block_len(variants: Seq<Seq<char>>, count: nat)
    ensures
        block(variants, count).len() == count * variants.len(),
    decreases count,
{
    if count > 0 {
        lemma_block_len(variants, (count - 1) as nat);
        let n = variants.len();
        assert(count * n == (count - 1) * n + n) by (nonlinear_arith);
        assert(block(variants, count).len() == block(variants, (count - 1) as nat).len() + n);
    } else {
        assert(0 * variants.len() == 0) by (nonlinear_arith);
    }
}

/// The name that `template` gives the component `i`.
pub fn name(template: &str, i: usize) -> (res: String)
    requires
        template@.contains('#'),
    ensures
        res@ == expand(template@, i as nat),
{
    let k = match find_char(template, '#') {
        Some(k) => k,
        None => {
            assert(false);
            0
        },
    };
    let len = template.unicode_len();
    let prefix = template.substring_char(0, k);
    let suffix = template.substring_char(k + 1, len);
    let mut res = prefix.to_string();
    let digits = format_usize(i);
    res.append(digits.as_str());
    res.append(suffix);
    assert(prefix@ =~= template@.take(k as int));
    assert(suffix@ =~= template@.skip(k + 1));
    res
}

/// Generates the names of the components that the templates describe: for
/// each template list and count, component 0 named by every variant, then
/// component 1, and so on.
pub fn generate(templates: &[(&[&str], usize)]) -> (names: Vec<String>)
    requires
        well_formed(templates@),
    ensures
        string_views(names@) == spec_generate(templates_view(templates@)),
{
    let mut names: Vec<String> = Vec::new();
    let mut t: usize = 0;
    while t < templates.len()
        invariant
            t <= templates@.len(),
            well_formed(templates@),
            string_views(names@) =~= spec_generate(templates_view(templates@.take(t as int))),
        decreases templates.len() - t,
    {
        let (variants, count) = templates[t];
        let ghost vs = str_views(variants@);
        let ghost start = string_views(names@);
        let mut i: usize = 0;
        while i < count
            invariant
                t < templates@.len(),
                templates@[t as int] == (variants, count),
                vs == str_views(variants@),
                well_formed(templates@),
                i <= count,
                string_views(names@) =~= start + block(vs, i as nat),
            decreases count - i,
        {
            let ghost before = string_views(names@);
            let mut v: usize = 0;
            while v < variants.len()
                invariant
                    t < templates@.len(),
                    templates@[t as int] == (variants, count),
                    vs == str_views(variants@),
                    well_formed(templates@),
                    i < count,
                    v <= variants@.len(),
                    string_views(names@) =~= before + vs.take(v as int).map_values(
                        |s: Seq<char>| expand(s, i as nat),
                    ),
                decreases variants.len() - v,
            {
                assert(variants@[v as int]@.contains('#')) by {
                    assert(templates@[t as int].0@[v as int] == variants@[v as int]);
                }
                let n = name(variants[v], i);
                let ghost prev = names@;
                names.push(n);
                assert(string_views(names@) =~= string_views(prev).push(n@));
                assert(vs[v as int] == variants@[v as int]@);
                assert(vs.take(v + 1) =~= vs.take(v as int).push(vs[v as int]));
                assert(vs.take(v + 1).map_values(|s: Seq<char>| expand(s, i as nat)) =~= vs.take(
                    v as int,
                ).map_values(|s: Seq<char>| expand(s, i as nat)).push(expand(vs[v as int], i as nat)));
                v = v + 1;
            }
            assert(vs.take(variants.len() as int) =~= vs);
            assert(block(vs, (i + 1) as nat) == block(vs, i as nat) + vs.map_values(
                |s: Seq<char>| expand(s, i as nat),
            ));
            i = i + 1;
        }
        proof {
            let tv = templates_view(templates@.take(t + 1));
            assert(tv.drop_last() =~= templates_view(templates@.take(t as int)));
            assert(tv.last() == (vs, count as nat));
        }
        t = t + 1;
    }
    assert(templates@.take(templates.len() as int) =~= templates@);
    names
}

} // verus!
