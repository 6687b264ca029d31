//! Which usage pool a Cursor model draws from.

use crate::numeral::is_digit_char;
use crate::text::{
    contains, has_prefix, has_text, join, join_texts, lemma_lower_twice, lemma_split_concat,
    lemma_split_join, lemma_split_parts, lemma_split_single, lower, lower_char, occurs_at, same_text,
    same_text_any_case, split, split_text, starts_with, to_chars, to_lower, views,
};
use vstd::prelude::*;

verus! {

/// The pool of the models that Cursor makes itself.
pub const PROVIDER_FIRST_PARTY: &'static str = "_cursor_first_party";

/// The pool of all other models.
pub const PROVIDER_THIRD_PARTY: &'static str = "_cursor_third_party";

/// Whether the part of a model's name tells a quality tier.
pub open spec fn is_tier(part: Seq<char>) -> bool {
    ||| part == "fast"@
    ||| part == "slow"@
    ||| part == "low"@
    ||| part == "medium"@
    ||| part == "high"@
    ||| part == "xhigh"@
    ||| part == "thinking"@
    ||| part == "max"@
    ||| part == "mini"@
    ||| part == "preview"@
}

/// Whether the part of a model's name is a version: digits and points, with at
/// least one digit.
pub open spec fn is_version(part: Seq<char>) -> bool {
    &&& forall|i: int| 0 <= i < part.len() ==> is_digit_char(#[trigger] part[i]) || part[i] == '.'
    &&& exists|i: int| 0 <= i < part.len() && is_digit_char(#[trigger] part[i])
}

/// Whether the part of a model's name, in lower case, tells the family.
pub open spec fn names_family(part: Seq<char>) -> bool {
    !is_tier(part) && !is_version(part)
}

/// The parts of a model's name that tell its family.
pub open spec fn family_parts(model: Seq<char>) -> Seq<Seq<char>> {
    split(lower(model), '-').filter(|part: Seq<char>| names_family(part))
}

/// The family of a model: its name in lower case, without quality tiers and
/// versions.
pub open spec fn family(model: Seq<char>) -> Seq<char> {
    join(family_parts(model), '-')
}

/// Whether the family is one that Cursor is known to make itself.
pub open spec fn is_known_family(family: Seq<char>) -> bool {
    ||| family == "composer"@
    ||| family == "vega"@
    ||| family == "grok"@
    ||| family == "cursor-grok"@
    ||| family == "default"@
}

/// Whether a list of models names the given one, in any case.
pub open spec fn lists_model(bucket: Seq<Seq<char>>, model: Seq<char>) -> bool {
    exists|i: int| 0 <= i < bucket.len() && lower(#[trigger] bucket[i]) == lower(model)
}

/// Whether a list of models names one of the given family.
pub open spec fn lists_family(bucket: Seq<Seq<char>>, wanted: Seq<char>) -> bool {
    exists|i: int| 0 <= i < bucket.len() && family(#[trigger] bucket[i]) == wanted
}

/// Whether a model draws from the first-party pool: the list of that pool
/// names it or one of its family; with no list, the known families do.
pub open spec fn is_first_party(model: Seq<char>, bucket: Seq<Seq<char>>) -> bool {
    ||| lists_model(bucket, model)
    ||| {
        &&& family(model).len() > 0
        &&& lists_family(bucket, family(model)) || (bucket.len() == 0 && is_known_family(
            family(model),
        ))
    }
}

/// The pool that a model draws from.
pub open spec fn pool(model: Seq<char>, bucket: Seq<Seq<char>>) -> Seq<char> {
    if is_first_party(model, bucket) {
        PROVIDER_FIRST_PARTY@
    } else {
        PROVIDER_THIRD_PARTY@
    }
}

/// Whether the traffic is Cursor's own, which no pool counts.
pub open spec fn is_internal(model: Seq<char>, conversation_id: Seq<char>) -> bool {
    has_text(lower(model), "grok-bot"@) || has_prefix(lower(conversation_id), "sand-subagent"@)
}

/// Whether the traffic is Cursor's own, which no pool counts.
pub fn is_internal_cursor_traffic(model: &str, conversation_id: &str) -> (r: bool)
    ensures
        r == is_internal(model@, conversation_id@),
{
    let model: String = to_lower(model);
    let conversation_id: String = to_lower(conversation_id);
    contains(model.as_str(), "grok-bot") || starts_with(
        conversation_id.as_str(),
        "sand-subagent",
    )
}

fn is_tier_part(part: &str) -> (r: bool)
    ensures
        r == is_tier(part@),
{
    same_text(part, "fast") || same_text(part, "slow") || same_text(part, "low") || same_text(
        part,
        "medium",
    ) || same_text(part, "high") || same_text(part, "xhigh") || same_text(part, "thinking")
        || same_text(part, "max") || same_text(part, "mini") || same_text(part, "preview")
}

fn is_version_part(part: &str) -> (r: bool)
    ensures
        r == is_version(part@),
{
    let chars: Vec<char> = to_chars(part);
    let mut seen: bool = false;
    let mut i: usize = 0;
    while i < chars.len()
        invariant
            chars@ == part@,
            i <= chars@.len(),
            forall|j: int| 0 <= j < i ==> is_digit_char(#[trigger] chars@[j]) || chars@[j] == '.',
            seen == (exists|j: int| 0 <= j < i && is_digit_char(#[trigger] chars@[j])),
        decreases chars.len() - i,
    {
        let c: char = chars[i];
        if '0' <= c && c <= '9' {
            assert(is_digit_char(chars@[i as int]));
            seen = true;
        } else if c != '.' {
            return false;
        }
        i += 1;
    }
    seen
}

/// The family of a model: its name in lower case, without quality tiers and
/// versions.
pub fn model_family(model: &str) -> (r: String)
    ensures
        r@ == family(model@),
{
    let lowered: String = to_lower(model);
    let parts: Vec<String> = split_text(lowered.as_str(), '-');
    let ghost all = split(lower(model@), '-');
    let ghost keep = |part: Seq<char>| names_family(part);
    let mut kept: Vec<String> = Vec::new();
    let mut i: usize = 0;
    proof {
        reveal(Seq::filter);
        assert(views(kept@) =~= all.take(0).filter(keep));
    }
    while i < parts.len()
        invariant
            i <= parts@.len(),
            views(parts@) == all,
            keep == (|part: Seq<char>| names_family(part)),
            views(kept@) == all.take(i as int).filter(keep),
        decreases parts.len() - i,
    {
        let ghost before = views(kept@);
        proof {
            assert(parts@[i as int]@ == all[i as int]);
            assert(all.take(i + 1) =~= all.take(i as int).push(all[i as int]));
            all.take(i as int).lemma_filter_push(all[i as int], keep);
        }
        if !is_tier_part(parts[i].as_str()) && !is_version_part(parts[i].as_str()) {
            kept.push(parts[i].clone());
            assert(views(kept@) =~= before.push(all[i as int]));
        }
        i += 1;
    }
    assert(all.take(i as int) =~= all);
    join_texts(&kept, '-')
}

/// Whether the model's family is one that Cursor is known to make itself.
pub fn looks_like_first_party_family(model: &str) -> (r: bool)
    ensures
        r == is_known_family(family(model@)),
{
    let family: String = model_family(model);
    let family: &str = family.as_str();
    same_text(family, "composer") || same_text(family, "vega") || same_text(family, "grok")
        || same_text(family, "cursor-grok") || same_text(family, "default")
}

/// Whether a model draws from the first-party pool, given the list of that
/// pool.
pub fn is_first_party_model(model: &str, auto_bucket: &[String]) -> (r: bool)
    ensures
        r == is_first_party(model@, views(auto_bucket@)),
{
    let ghost bucket = views(auto_bucket@);
    let mut i: usize = 0;
    while i < auto_bucket.len()
        invariant
            i <= auto_bucket@.len(),
            bucket == views(auto_bucket@),
            forall|j: int| 0 <= j < i ==> lower(#[trigger] bucket[j]) != lower(model@),
        decreases auto_bucket.len() - i,
    {
        assert(bucket[i as int] == auto_bucket@[i as int]@);
        if same_text_any_case(auto_bucket[i].as_str(), model) {
            return true;
        }
        i += 1;
    }
    let wanted: String = model_family(model);
    if wanted.as_str().is_empty() {
        return false;
    }
    i = 0;
    while i < auto_bucket.len()
        invariant
            i <= auto_bucket@.len(),
            bucket == views(auto_bucket@),
            wanted@ == family(model@),
            wanted@.len() > 0,
            forall|j: int| 0 <= j < i ==> family(#[trigger] bucket[j]) != wanted@,
        decreases auto_bucket.len() - i,
    {
        assert(bucket[i as int] == auto_bucket@[i as int]@);
        let listed: String = model_family(auto_bucket[i].as_str());
        if same_text(listed.as_str(), wanted.as_str()) {
            return true;
        }
        i += 1;
    }
    auto_bucket.len() == 0 && looks_like_first_party_family(model)
}

/// The pool that a model draws from.
pub fn pool_provider_id(model: &str, auto_bucket: &[String]) -> (r: &'static str)
    ensures
        r@ == pool(model@, views(auto_bucket@)),
{
    if is_first_party_model(model, auto_bucket) {
        PROVIDER_FIRST_PARTY
    } else {
        PROVIDER_THIRD_PARTY
    }
}

/// Case makes no difference to the family, nor to the pool.
pub proof fn law_case_makes_no_difference(model: Seq<char>, bucket: Seq<Seq<char>>)
    ensures
        family(lower(model)) == family(model),
        is_first_party(lower(model), bucket) == is_first_party(model, bucket),
{
    lemma_lower_twice(model);
}

/// A model of the same family as one on the list draws from the first-party
/// pool, whatever its version and tier.
pub proof fn law_family_of_a_listed_model_is_first_party(
    model: Seq<char>,
    listed: Seq<char>,
    bucket: Seq<Seq<char>>,
)
    requires
        bucket.contains(listed),
        family(model) == family(listed),
        family(model).len() > 0,
    ensures
        is_first_party(model, bucket),
        pool(model, bucket) == PROVIDER_FIRST_PARTY@,
{
    let i = choose|i: int| 0 <= i < bucket.len() && bucket[i] == listed;
    assert(family(bucket[i]) == family(model));
}

/// A version or a tier in a model's name makes no difference to its family,
/// wherever it stands: in the middle, at the end or at the beginning.
pub proof fn law_versions_and_tiers_are_left_out(
    front: Seq<char>,
    part: Seq<char>,
    back: Seq<char>,
)
    requires
        !part.contains('-'),
        !names_family(lower(part)),
    ensures
        family(front.push('-') + part.push('-') + back) == family(front.push('-') + back),
        family(front.push('-') + part) == family(front),
        family(part.push('-') + back) == family(back),
{
    let keep = |p: Seq<char>| names_family(p);
    let (f, p, b) = (lower(front), lower(part), lower(back));
    assert(!p.contains('-')) by {
        if p.contains('-') {
            let i = choose|i: int| 0 <= i < p.len() && p[i] == '-';
            assert(part[i] == '-');
        }
    }
    lemma_split_single(p, '-');
    let dropped = split(p, '-');
    assert(dropped.filter(keep) =~= Seq::<Seq<char>>::empty()) by {
        reveal(Seq::filter);
        assert(dropped.drop_last() =~= Seq::<Seq<char>>::empty());
        assert(dropped.drop_last().filter(keep) =~= Seq::<Seq<char>>::empty());
    }
    assert(lower(front.push('-') + part.push('-') + back) =~= f.push('-') + (p.push('-') + b));
    assert(lower(front.push('-') + back) =~= f.push('-') + b);
    assert(lower(front.push('-') + part) =~= f.push('-') + p);
    assert(lower(part.push('-') + back) =~= p.push('-') + b);
    lemma_split_concat(f, p.push('-') + b, '-');
    lemma_split_concat(p, b, '-');
    lemma_split_concat(f, b, '-');
    lemma_split_concat(f, p, '-');
    let (sf, sb) = (split(f, '-'), split(b, '-'));
    Seq::filter_distributes_over_add(sf, dropped + sb, keep);
    Seq::filter_distributes_over_add(dropped, sb, keep);
    Seq::filter_distributes_over_add(sf, sb, keep);
    Seq::filter_distributes_over_add(sf, dropped, keep);
    assert(Seq::<Seq<char>>::empty() + sb.filter(keep) =~= sb.filter(keep));
    assert(sf.filter(keep) + Seq::<Seq<char>>::empty() =~= sf.filter(keep));
}

/// A family is its own family.
pub proof fn law_family_is_stable(model: Seq<char>)
    ensures
        family(family(model)) == family(model),
{
    let keep = |part: Seq<char>| names_family(part);
    let all = split(lower(model), '-');
    let parts = family_parts(model);
    lemma_split_parts(lower(model), '-');
    assert forall|i: int| 0 <= i < parts.len() implies names_family(#[trigger] parts[i])
        && !parts[i].contains('-') && lower(parts[i]) == parts[i] by {
        all.lemma_filter_pred(keep, i);
        all.lemma_filter_contains_rev(keep, parts[i]);
        let k = choose|k: int| 0 <= k < all.len() && all[k] == parts[i];
        assert forall|j: int| 0 <= j < all[k].len() implies lower_char(#[trigger] all[k][j])
            == all[k][j] && all[k][j] != '-' by {
            let c = all[k][j];
            assert(lower(model).contains(c));
            let at = choose|at: int| 0 <= at < lower(model).len() && lower(model)[at] == c;
            assert(c == lower_char(model[at]));
        }
        assert(lower(all[k]) =~= all[k]);
    }
    if parts.len() == 0 {
        let nothing = Seq::<char>::empty();
        assert(lower(nothing) =~= nothing);
        assert(split(nothing, '-') =~= seq![nothing]);
        assert(names_family(nothing)) by {
            lemma_tiers_are_not_empty();
        }
        reveal(Seq::filter);
        assert(seq![nothing].drop_last() =~= Seq::<Seq<char>>::empty());
        assert(seq![nothing].drop_last().filter(keep) =~= Seq::<Seq<char>>::empty());
        assert(seq![nothing].filter(keep) =~= seq![nothing]);
    } else {
        lemma_lower_join(parts);
        lemma_split_join(parts, '-');
        lemma_filter_all(parts, keep);
    }
}

proof fn lemma_tiers_are_not_empty()
    ensures
        !is_tier(Seq::<char>::empty()),
{
    reveal_strlit("fast");
    assert("fast"@.len() == 4);
    reveal_strlit("slow");
    assert("slow"@.len() == 4);
    reveal_strlit("low");
    assert("low"@.len() == 3);
    reveal_strlit("medium");
    assert("medium"@.len() == 6);
    reveal_strlit("high");
    assert("high"@.len() == 4);
    reveal_strlit("xhigh");
    assert("xhigh"@.len() == 5);
    reveal_strlit("thinking");
    assert("thinking"@.len() == 8);
    reveal_strlit("max");
    assert("max"@.len() == 3);
    reveal_strlit("mini");
    assert("mini"@.len() == 4);
    reveal_strlit("preview");
    assert("preview"@.len() == 7);
}

proof fn lemma_lower_join(parts: Seq<Seq<char>>)
    requires
        forall|i: int| 0 <= i < parts.len() ==> lower(#[trigger] parts[i]) == parts[i],
    ensures
        lower(join(parts, '-')) == join(parts, '-'),
    decreases parts.len(),
{
    if parts.len() > 1 {
        lemma_lower_join(parts.drop_last());
        let front = join(parts.drop_last(), '-');
        let last = parts[parts.len() - 1];
        assert(lower(last) == last);
        assert forall|j: int| 0 <= j < last.len() implies lower_char(#[trigger] last[j])
            == last[j] by {
            assert(lower(last)[j] == lower_char(last[j]));
        }
        assert forall|j: int| 0 <= j < front.len() implies lower_char(#[trigger] front[j])
            == front[j] by {
            assert(lower(front)[j] == lower_char(front[j]));
        }
        assert(lower(join(parts, '-')) =~= join(parts, '-'));
    } else if parts.len() == 1 {
        assert(lower(parts[0]) == parts[0]);
    } else {
        assert(lower(join(parts, '-')) =~= join(parts, '-'));
    }
}

proof fn lemma_filter_all(parts: Seq<Seq<char>>, keep: spec_fn(Seq<char>) -> bool)
    requires
        forall|i: int| 0 <= i < parts.len() ==> keep(#[trigger] parts[i]),
    ensures
        parts.filter(keep) == parts,
    decreases parts.len(),
{
    reveal(Seq::filter);
    if parts.len() > 0 {
        lemma_filter_all(parts.drop_last(), keep);
        assert(parts.drop_last().push(parts.last()) =~= parts);
    }
}

/// The converse for a list: a model that the list does not name, and whose
/// family is that of no model on the list, does not draw from the first-party
/// pool; nor does one without a family that the list does not name.
pub proof fn law_unlisted_families_are_third_party(model: Seq<char>, bucket: Seq<Seq<char>>)
    requires
        bucket.len() > 0,
        forall|i: int| 0 <= i < bucket.len() ==> lower(#[trigger] bucket[i]) != lower(model),
        family(model).len() == 0 || forall|i: int|
            0 <= i < bucket.len() ==> family(#[trigger] bucket[i]) != family(model),
    ensures
        !is_first_party(model, bucket),
        pool(model, bucket) == "_cursor_third_party"@,
{
}

/// A model that the list names, in any case, draws from the first-party pool.
pub proof fn law_listed_models_are_first_party(model: Seq<char>, bucket: Seq<Seq<char>>, i: int)
    requires
        0 <= i < bucket.len(),
        lower(bucket[i]) == lower(model),
    ensures
        is_first_party(model, bucket),
        pool(model, bucket) == "_cursor_first_party"@,
{
}

/// Without a list exactly the known families draw from the first-party pool.
pub proof fn law_known_families_count_without_a_list(model: Seq<char>)
    ensures
        is_first_party(model, Seq::empty()) <==> seq![
            "composer"@,
            "vega"@,
            "grok"@,
            "cursor-grok"@,
            "default"@,
        ].contains(family(model)),
{
    let known = seq!["composer"@, "vega"@, "grok"@, "cursor-grok"@, "default"@];
    reveal_strlit("composer");
    reveal_strlit("vega");
    reveal_strlit("grok");
    reveal_strlit("cursor-grok");
    reveal_strlit("default");
    assert("composer"@.len() == 8 && "vega"@.len() == 4 && "grok"@.len() == 4
        && "cursor-grok"@.len() == 11 && "default"@.len() == 7);
    assert(known[0] == "composer"@ && known[1] == "vega"@ && known[2] == "grok"@ && known[3]
        == "cursor-grok"@ && known[4] == "default"@);
    if known.contains(family(model)) {
        let i = choose|i: int| 0 <= i < known.len() && known[i] == family(model);
    }
}

/// With a list the families that are known without one have no standing of
/// their own: what the list does not cover is third party. Adding entries never
/// takes a model out of the first-party pool.
pub proof fn law_longer_lists_cover_more(
    model: Seq<char>,
    bucket: Seq<Seq<char>>,
    more: Seq<Seq<char>>,
)
    requires
        bucket.len() > 0,
        is_first_party(model, bucket),
    ensures
        is_first_party(model, bucket + more),
        is_first_party(model, more + bucket),
{
    let (a, b) = (bucket + more, more + bucket);
    if lists_model(bucket, model) {
        let i = choose|i: int|
            0 <= i < bucket.len() && lower(#[trigger] bucket[i]) == lower(model);
        assert(a[i] == bucket[i] && b[more.len() + i] == bucket[i]);
    } else {
        let i = choose|i: int|
            0 <= i < bucket.len() && family(#[trigger] bucket[i]) == family(model);
        assert(a[i] == bucket[i] && b[more.len() + i] == bucket[i]);
    }
}

/// The parts of a name that are left out of its family: the ten tiers, and
/// versions made of digits and points with at least one digit. Every other part
/// counts.
pub proof fn law_which_parts_are_left_out(part: Seq<char>)
    ensures
        !names_family(part) <==> seq![
            "fast"@,
            "slow"@,
            "low"@,
            "medium"@,
            "high"@,
            "xhigh"@,
            "thinking"@,
            "max"@,
            "mini"@,
            "preview"@,
        ].contains(part) || ((exists|i: int| 0 <= i < part.len() && '0' <= #[trigger] part[i] <= '9')
            && forall|i: int|
            0 <= i < part.len() ==> '0' <= #[trigger] part[i] <= '9' || part[i] == '.'),
{
    let tiers = seq![
        "fast"@,
        "slow"@,
        "low"@,
        "medium"@,
        "high"@,
        "xhigh"@,
        "thinking"@,
        "max"@,
        "mini"@,
        "preview"@,
    ];
    assert(tiers[0] == "fast"@ && tiers[1] == "slow"@ && tiers[2] == "low"@ && tiers[3]
        == "medium"@ && tiers[4] == "high"@ && tiers[5] == "xhigh"@ && tiers[6] == "thinking"@
        && tiers[7] == "max"@ && tiers[8] == "mini"@ && tiers[9] == "preview"@);
    if tiers.contains(part) {
        let i = choose|i: int| 0 <= i < tiers.len() && tiers[i] == part;
    }
    if exists|i: int| 0 <= i < part.len() && '0' <= #[trigger] part[i] <= '9' {
        let i = choose|i: int| 0 <= i < part.len() && '0' <= #[trigger] part[i] <= '9';
        assert(is_digit_char(part[i]));
    }
}

/// Every other part of a name stands in its family, in lower case and in order:
/// behind a name with a family it follows that with a dash.
pub proof fn law_other_parts_are_kept(front: Seq<char>, part: Seq<char>)
    requires
        !part.contains('-'),
        names_family(lower(part)),
        family(front).len() > 0,
    ensures
        family(part) == lower(part),
        family(front.push('-') + part) == family(front).push('-') + lower(part),
{
    let keep = |p: Seq<char>| names_family(p);
    let (f, p) = (lower(front), lower(part));
    assert(!p.contains('-')) by {
        if p.contains('-') {
            let i = choose|i: int| 0 <= i < p.len() && p[i] == '-';
            assert(part[i] == '-');
        }
    }
    lemma_split_single(p, '-');
    assert(seq![p].filter(keep) =~= seq![p]) by {
        reveal(Seq::filter);
        assert(seq![p].drop_last() =~= Seq::<Seq<char>>::empty());
        assert(seq![p].drop_last().filter(keep) =~= Seq::<Seq<char>>::empty());
    }
    assert(lower(front.push('-') + part) =~= f.push('-') + p);
    lemma_split_concat(f, p, '-');
    Seq::filter_distributes_over_add(split(f, '-'), seq![p], keep);
    let parts = family_parts(front);
    assert(parts.len() > 0);
    let all = parts + seq![p];
    assert(all.drop_last() =~= parts);
    assert(family_parts(front.push('-') + part) =~= all);
}

/// Traffic is Cursor's own if its model has `grok-bot` in its name or its
/// conversation begins with `sand-subagent`, in any case; otherwise it is not.
pub proof fn law_which_traffic_is_internal(
    front: Seq<char>,
    mark: Seq<char>,
    back: Seq<char>,
    other: Seq<char>,
)
    ensures
        lower(mark) == "grok-bot"@ ==> is_internal(front + mark + back, other),
        lower(mark) == "sand-subagent"@ ==> is_internal(other, mark + back),
        !has_text(lower(front), "grok-bot"@) && !has_prefix(lower(other), "sand-subagent"@)
            ==> !is_internal(front, other),
{
    let model = front + mark + back;
    if lower(mark) == "grok-bot"@ {
        assert(lower(model).subrange(front.len() as int, (front.len() + mark.len()) as int) =~= lower(mark));
        assert(occurs_at(lower(model), "grok-bot"@, front.len() as int));
    }
    if lower(mark) == "sand-subagent"@ {
        assert(lower(mark + back).subrange(0, mark.len() as int) =~= lower(mark));
    }
}

} // verus!
