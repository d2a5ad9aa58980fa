//! Names as configuration files spell them.

use crate::text::{
    ascii_lower, eq_ignore_ascii_case, lowered, same_text, to_ascii_lowercase, trim, trimmed, white_space, without_leading_space,
    without_trailing_space,
};
use vstd::prelude::*;

verus! {

/// A hyphen or a space becomes an underscore; any other character stays.
pub open spec fn underscored(c: char) -> char {
    if c == '-' || c == ' ' {
        '_'
    } else {
        c
    }
}

/// A configuration name in its normal form: without white space at the ends, in
/// lower case, and with underscores for hyphens and spaces.
pub open spec fn normal_form(name: Seq<char>) -> Seq<char> {
    lowered(trimmed(name)).map_values(|c: char| underscored(c))
}

/// Normalizes a configuration name: trim, lower-case, replace `-` and spaces with
/// `_`.
#[must_use]
pub fn normalize_config_name(name: &str) -> (result: String)
    ensures
        result@ == normal_form(name@),
{
    let bare = trim(name);
    let lower = to_ascii_lowercase(bare.as_str());
    let chars = crate::text::chars_of(lower.as_str());
    let mut result = String::new();
    let mut i: usize = 0;
    while i < chars.len()
        invariant
            i <= chars@.len(),
            chars@ == lower@,
            result@ == lower@.take(i as int).map_values(|c: char| underscored(c)),
        decreases chars@.len() - i,
    {
        let c = chars[i];
        let next: char = if c == '-' || c == ' ' {
            '_'
        } else {
            c
        };
        result.push(next);
        proof {
            assert(lower@.take(i + 1).map_values(|c: char| underscored(c)) == lower@.take(
                i as int,
            ).map_values(|c: char| underscored(c)).push(underscored(c)));
        }
        i += 1;
    }
    proof {
        assert(lower@.take(lower@.len() as int) == lower@);
    }
    result
}

proof fn lemma_trimmed_ends(s: Seq<char>)
    ensures
        trimmed(s).len() > 0 ==> !white_space(trimmed(s)[0]) && !white_space(trimmed(s).last()),
{
    lemma_leading_end(s);
    lemma_trailing_ends(without_leading_space(s));
}

proof fn lemma_leading_end(s: Seq<char>)
    ensures
        without_leading_space(s).len() > 0 ==> !white_space(without_leading_space(s)[0]),
    decreases s.len(),
{
    if s.len() > 0 && white_space(s[0]) {
        lemma_leading_end(s.drop_first());
    }
}

proof fn lemma_trailing_ends(s: Seq<char>)
    ensures
        without_trailing_space(s).len() <= s.len(),
        without_trailing_space(s).len() > 0 ==> without_trailing_space(s)[0] == s[0]
            && !white_space(without_trailing_space(s).last()),
    decreases s.len(),
{
    if s.len() > 0 && white_space(s.last()) {
        lemma_trailing_ends(s.drop_last());
    }
}

/// A name in normal form is its own normal form.
pub proof fn normalization_is_idempotent(name: Seq<char>)
    ensures
        normal_form(normal_form(name)) == normal_form(name),
{
    let bare = trimmed(name);
    let normal = normal_form(name);
    lemma_trimmed_ends(name);
    assert(normal.len() == bare.len());
    if bare.len() > 0 {
        assert(normal[0] == underscored(ascii_lower(bare[0])));
        assert(normal.last() == underscored(ascii_lower(bare.last())));
        assert(!white_space(normal[0]) && !white_space(normal.last()));
    }
    assert(trimmed(normal) == normal);
    assert forall|i: int| 0 <= i < normal.len() implies underscored(ascii_lower(#[trigger] normal[i]))
        == normal[i] by {
        assert(normal[i] == underscored(ascii_lower(bare[i])));
    }
    assert(normal_form(normal) == normal);
}

/// A setting switches something on: `1`, or `true` in any case.
pub open spec fn switches_on(setting: Option<Seq<char>>) -> bool {
    match setting {
        Some(value) => value == "1"@ || lowered(value) == lowered("true"@),
        None => false,
    }
}

/// The characters of a setting.
pub open spec fn setting_view(setting: Option<&str>) -> Option<Seq<char>> {
    match setting {
        Some(value) => Some(value@),
        None => None,
    }
}

/// Whether a setting switches something on.
pub fn is_switched_on(setting: Option<&str>) -> (result: bool)
    ensures
        result == switches_on(setting_view(setting)),
{
    match setting {
        Some(value) => same_text(value, "1") || eq_ignore_ascii_case(value, "true"),
        None => false,
    }
}

/// Whether a setting is there and not empty.
pub fn is_set(setting: Option<&str>) -> (result: bool)
    ensures
        result == (setting is Some && setting->Some_0@.len() > 0),
{
    match setting {
        Some(value) => value.unicode_len() > 0,
        None => false,
    }
}

/// A normal form has no dash and no space, and differs from the lower-case name without
/// white space at its ends in nothing but the underscores that stand for these.
pub proof fn normal_forms_only_replace_dashes_and_spaces(name: Seq<char>, i: int)
    requires
        0 <= i < normal_form(name).len(),
    ensures
        normal_form(name).len() == lowered(trimmed(name)).len(),
        normal_form(name)[i] != '-' && normal_form(name)[i] != ' ',
        lowered(trimmed(name))[i] == '-' || lowered(trimmed(name))[i] == ' ' ==> normal_form(
            name,
        )[i] == '_',
        lowered(trimmed(name))[i] != '-' && lowered(trimmed(name))[i] != ' ' ==> normal_form(
            name,
        )[i] == lowered(trimmed(name))[i],
{
}

/// A switch is on for one and for the word for it in any case, and off without a setting.
pub proof fn switches_need_a_clear_setting(value: Seq<char>)
    ensures
        !switches_on(None),
        switches_on(Some("1"@)),
        switches_on(Some("true"@)),
        switches_on(Some(value)) ==> value == "1"@ || lowered(value) == lowered("true"@),
        lowered(value) == lowered("true"@) ==> switches_on(Some(value)),
{
}

} // verus!
