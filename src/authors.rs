use vstd::prelude::*;

pub use vstd::hash_map::StringHashMap;

use crate::text::{chars_of, contains_seq, find, string_texts};
use crate::timerange::RepoStatsOptions;

verus! {

/// The texts held by a map from strings to strings.
pub open spec fn text_map(m: Map<Seq<char>, String>) -> Map<Seq<char>, Seq<char>> {
    m.map_values(|v: String| v@)
}

/// The key that stands for the author (`email`, `name`): the key already bound to
/// the email; else, for a non-empty name, the email first seen with that name;
/// else the email itself.
pub open spec fn canonical_key(
    aliases: Map<Seq<char>, Seq<char>>,
    names: Map<Seq<char>, Seq<char>>,
    email: Seq<char>,
    name: Seq<char>,
) -> Seq<char> {
    if aliases.contains_key(email) {
        aliases[email]
    } else if name.len() > 0 && names.contains_key(name) {
        names[name]
    } else {
        email
    }
}

/// The email bindings after seeing (`email`, `name`): an unbound email is bound
/// to its key.
pub open spec fn aliases_after(
    aliases: Map<Seq<char>, Seq<char>>,
    names: Map<Seq<char>, Seq<char>>,
    email: Seq<char>,
    name: Seq<char>,
) -> Map<Seq<char>, Seq<char>> {
    if aliases.contains_key(email) {
        aliases
    } else {
        aliases.insert(email, canonical_key(aliases, names, email, name))
    }
}

/// The name bindings after seeing (`email`, `name`): a new non-empty name seen
/// with a new email is bound to that email.
pub open spec fn names_after(
    aliases: Map<Seq<char>, Seq<char>>,
    names: Map<Seq<char>, Seq<char>>,
    email: Seq<char>,
    name: Seq<char>,
) -> Map<Seq<char>, Seq<char>> {
    if aliases.contains_key(email) || name.len() == 0 || names.contains_key(name) {
        names
    } else {
        names.insert(name, email)
    }
}

/// The canonical key of the author (`email`, `name`), updating the email and
/// name bindings as it learns them.
pub fn canonicalize_author(
    email: &str,
    name: &str,
    email_aliases: &mut StringHashMap<String>,
    name_to_email: &mut StringHashMap<String>,
) -> (r: String)
    ensures
        r@ == canonical_key(
            text_map(old(email_aliases)@),
            text_map(old(name_to_email)@),
            email@,
            name@,
        ),
        text_map(final(email_aliases)@) == aliases_after(
            text_map(old(email_aliases)@),
            text_map(old(name_to_email)@),
            email@,
            name@,
        ),
        text_map(final(name_to_email)@) == names_after(
            text_map(old(email_aliases)@),
            text_map(old(name_to_email)@),
            email@,
            name@,
        ),
{
    let ghost aliases0 = email_aliases@;
    let ghost names0 = name_to_email@;
    if let Some(existing) = email_aliases.get(email) {
        let key = existing.clone();
        return key;
    }
    if !name.is_empty() {
        if let Some(existing) = name_to_email.get(name) {
            let key = existing.clone();
            email_aliases.insert(email.to_owned(), key.clone());
            assert(text_map(email_aliases@) =~= text_map(aliases0).insert(email@, key@));
            return key;
        } else {
            name_to_email.insert(name.to_owned(), email.to_owned());
            assert(text_map(name_to_email@) =~= text_map(names0).insert(name@, email@));
        }
    }
    let canonical = email.to_owned();
    email_aliases.insert(canonical.clone(), canonical.clone());
    assert(text_map(email_aliases@) =~= text_map(aliases0).insert(email@, email@));
    canonical
}

/// The lower-case form of a text, as `str::to_lowercase` computes it.
pub uninterp spec fn lower_of(s: Seq<char>) -> Seq<char>;

/// Relies on `str::to_lowercase`: the result depends on the characters alone.
#[verifier::external_body]
fn lowercase(s: &str) -> (r: String)
    ensures
        r@ == lower_of(s@),
{
    s.to_lowercase()
}

/// A field passes a filter set: the set is empty, or the field is not empty and
/// its lower-case form contains one of the (lower-case) filters.
pub open spec fn passes_filters(field: Seq<char>, filters_lower: Seq<Seq<char>>) -> bool {
    filters_lower.len() == 0 || (field.len() > 0 && exists|i: int|
        0 <= i < filters_lower.len() && #[trigger] contains_seq(lower_of(field), filters_lower[i]))
}

/// The lower-case forms of the filters.
pub open spec fn lowered(filters: Seq<String>) -> Seq<Seq<char>> {
    filters.map_values(|s: String| lower_of(s@))
}

/// Whether `text` contains one of `filters_lower`.
fn contains_any(text: &Vec<char>, filters_lower: &Vec<String>) -> (r: bool)
    ensures
        r == exists|i: int|
            0 <= i < filters_lower@.len() && #[trigger] contains_seq(
                text@,
                string_texts(filters_lower@)[i],
            ),
{
    let mut i: usize = 0;
    while i < filters_lower.len()
        invariant
            i <= filters_lower@.len(),
            forall|j: int| 0 <= j < i ==> !#[trigger] contains_seq(text@, string_texts(filters_lower@)[j]),
        decreases filters_lower.len() - i,
    {
        let f = chars_of(filters_lower[i].as_str());
        if find(text, &f).is_some() {
            assert(contains_seq(text@, string_texts(filters_lower@)[i as int]));
            return true;
        }
        i = i + 1;
    }
    false
}

/// Whether the author (`name`, `email`) passes both filter sets, whose filters
/// are already lower-case: each non-empty set needs a match, any one of its
/// filters, as a case-insensitive substring.
pub fn matches_author_filters_lowered(
    name: &str,
    email: &str,
    name_filters_lower: &Vec<String>,
    email_filters_lower: &Vec<String>,
) -> (r: bool)
    ensures
        r == (passes_filters(name@, string_texts(name_filters_lower@)) && passes_filters(
            email@,
            string_texts(email_filters_lower@),
        )),
{
    if name_filters_lower.len() > 0 {
        if name.is_empty() {
            return false;
        }
        let name_lower = chars_of(lowercase(name).as_str());
        if !contains_any(&name_lower, name_filters_lower) {
            return false;
        }
    }
    if email_filters_lower.len() > 0 {
        if email.is_empty() {
            return false;
        }
        let email_lower = chars_of(lowercase(email).as_str());
        if !contains_any(&email_lower, email_filters_lower) {
            return false;
        }
    }
    true
}

/// The lower-case forms of `filters`.
pub fn lowercase_all(filters: &Vec<String>) -> (r: Vec<String>)
    ensures
        string_texts(r@) == lowered(filters@),
{
    let mut out: Vec<String> = Vec::new();
    let mut i: usize = 0;
    while i < filters.len()
        invariant
            i <= filters@.len(),
            string_texts(out@) =~= lowered(filters@).take(i as int),
        decreases filters.len() - i,
    {
        let l = lowercase(filters[i].as_str());
        let ghost before = out@;
        out.push(l);
        assert(string_texts(out@) =~= string_texts(before).push(lower_of(filters@[i as int]@)));
        assert(string_texts(out@) =~= lowered(filters@).take(i + 1));
        i = i + 1;
    }
    assert(lowered(filters@).take(i as int) =~= lowered(filters@));
    out
}

} // verus!

verus! {

/// Whether the author (`name`, `email`) passes the name and email filters of
/// `options`, compared case-insensitively.
pub fn matches_author_filters(name: &str, email: &str, options: &RepoStatsOptions) -> (r: bool)
    ensures
        r == (passes_filters(name@, lowered(options.names@)) && passes_filters(
            email@,
            lowered(options.emails@),
        )),
{
    let names = lowercase_all(&options.names);
    let emails = lowercase_all(&options.emails);
    matches_author_filters_lowered(name, email, &names, &emails)
}

/// The first email seen with a name is sticky: after (`first`, `name`) and then
/// (`second`, `name`), both resolve to `first`, and so does `second` seen again
/// under any other name.
pub proof fn lemma_first_email_for_name_is_sticky(
    aliases: Map<Seq<char>, Seq<char>>,
    names: Map<Seq<char>, Seq<char>>,
    first: Seq<char>,
    second: Seq<char>,
    name: Seq<char>,
    other_name: Seq<char>,
)
    requires
        !aliases.contains_key(first),
        !aliases.contains_key(second),
        !names.contains_key(name),
        name.len() > 0,
    ensures
        ({
            let a1 = aliases_after(aliases, names, first, name);
            let n1 = names_after(aliases, names, first, name);
            let a2 = aliases_after(a1, n1, second, name);
            let n2 = names_after(a1, n1, second, name);
            &&& canonical_key(aliases, names, first, name) == first
            &&& canonical_key(a1, n1, second, name) == first
            &&& canonical_key(a2, n2, second, other_name) == first
        }),
{
}

/// Once an email is bound, it resolves to the same key under any name, and the
/// binding stays.
pub proof fn lemma_bound_email_is_stable(
    aliases: Map<Seq<char>, Seq<char>>,
    names: Map<Seq<char>, Seq<char>>,
    email: Seq<char>,
    name: Seq<char>,
    other_email: Seq<char>,
    other_name: Seq<char>,
)
    requires
        aliases.contains_key(email),
    ensures
        canonical_key(aliases, names, email, name) == aliases[email],
        aliases_after(aliases, names, other_email, other_name).contains_key(email),
        aliases_after(aliases, names, other_email, other_name)[email] == aliases[email],
{
}

} // verus!
