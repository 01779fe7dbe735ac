//! Flags of a session, and the name under which a project's credentials are kept.

use std::collections::hash_map::DefaultHasher;
use std::hash::{Hash, Hasher};

use vstd::hash_map::StringHashMap;
use vstd::prelude::*;

use crate::replace::replace_all;
use crate::text::{chars_of, join, number_text, string_of};

verus! {

/// The flags of one session.
#[derive(Debug, Clone, Copy)]
struct SessionConfig {
    project_auth_enabled: bool,
}

/// The flags of all sessions that have set any, by session id.
pub struct SessionConfigs {
    configs: StringHashMap<SessionConfig>,
}

impl View for SessionConfigs {
    type V = Map<Seq<char>, bool>;

    /// Whether project auth mode is on, for the sessions that have set it.
    closed spec fn view(&self) -> Map<Seq<char>, bool> {
        self.configs@.map_values(|config: SessionConfig| config.project_auth_enabled)
    }
}

impl SessionConfigs {
    /// No session has set a flag.
    pub fn new() -> (configs: Self)
        ensures
            configs@ == Map::<Seq<char>, bool>::empty(),
    {
        let configs = SessionConfigs { configs: StringHashMap::new() };
        assert(configs@ =~= Map::empty());
        configs
    }
}

/// Whether project auth mode is on for a session; it is off unless the session has set it.
pub open spec fn project_auth_for(configs: Map<Seq<char>, bool>, session_id: Seq<char>) -> bool {
    configs.contains_key(session_id) && configs[session_id]
}

/// Check whether project auth mode is enabled for a session.
pub fn get_project_auth_enabled(configs: &SessionConfigs, session_id: &str) -> (enabled: bool)
    ensures
        enabled == project_auth_for(configs@, session_id@),
{
    match configs.configs.get(session_id) {
        Some(config) => config.project_auth_enabled,
        None => false,
    }
}

/// Set project auth mode for a session.
pub fn set_project_auth_enabled(configs: &mut SessionConfigs, session_id: &str, enabled: bool)
    ensures
        final(configs)@ == old(configs)@.insert(session_id@, enabled),
{
    configs.configs.insert(
        session_id.to_owned(),
        SessionConfig { project_auth_enabled: enabled },
    );
    assert(configs@ =~= old(configs)@.insert(session_id@, enabled));
}

/// Project auth mode is what the session last set, and setting it touches no other session.
pub proof fn law_project_auth_is_what_was_set(
    configs: Map<Seq<char>, bool>,
    session_id: Seq<char>,
    enabled: bool,
    other: Seq<char>,
)
    ensures
        project_auth_for(configs.insert(session_id, enabled), session_id) == enabled,
        other != session_id ==> project_auth_for(configs.insert(session_id, enabled), other)
            == project_auth_for(configs, other),
{
}

/// Whether a character is a letter or a digit of any script.
pub uninterp spec fn letter_or_digit(c: char) -> bool;

/// Whether `c` is an ASCII letter or an ASCII digit.
pub open spec fn ascii_letter_or_digit(c: char) -> bool {
    ||| 'a' <= c <= 'z'
    ||| 'A' <= c <= 'Z'
    ||| '0' <= c <= '9'
}

/// `char::is_alphanumeric`: the answer depends on the character alone, and of the ASCII
/// characters the letters and the digits are alphanumeric. Which others are is left to the
/// Unicode tables of the standard library.
#[verifier::external_body]
fn is_letter_or_digit(c: char) -> (yes: bool)
    ensures
        yes == letter_or_digit(c),
        c <= '\u{7f}' ==> yes == ascii_letter_or_digit(c),
{
    c.is_alphanumeric()
}

/// What a string feeds a hasher with.
pub uninterp spec fn hashed_writes(text: Seq<char>) -> Seq<Seq<u8>>;

/// `<str as Hash>::hash` on a `DefaultHasher`: adds writes to the hasher that depend on the string
/// alone. Which bytes these are is left to the standard library.
#[verifier::external_body]
fn hash_text(text: &str, hasher: &mut DefaultHasher)
    ensures
        final(hasher)@ == old(hasher)@ + hashed_writes(text@),
{
    text.hash(hasher)
}

/// The hash of a string under a fresh default hasher.
pub open spec fn default_hash(text: Seq<char>) -> u64 {
    <DefaultHasher as vstd::std_specs::hash::DefaultHasherAdditionalSpecFns>::spec_finish(
        hashed_writes(text),
    )
}

/// `path` without the slashes it ends with.
pub open spec fn without_trailing_slashes(path: Seq<char>) -> Seq<char>
    decreases path.len(),
{
    if path.len() > 0 && path.last() == '/' {
        without_trailing_slashes(path.drop_last())
    } else {
        path
    }
}

/// The stretches of `path` before, between and behind its slashes.
pub open spec fn components(path: Seq<char>) -> Seq<Seq<char>>
    decreases path.len(),
{
    if path.len() == 0 {
        seq![Seq::empty()]
    } else {
        let front = components(path.drop_last());
        if path.last() == '/' {
            front.push(Seq::empty())
        } else {
            front.drop_last().push(front.last().push(path.last()))
        }
    }
}

/// The part of a path that names the project: its last two components, put together with an
/// underscore.
pub open spec fn project_part(path: Seq<char>) -> Seq<char> {
    let kept = without_trailing_slashes(path);
    let parts = components(kept);
    if parts.len() > 2 {
        crate::text::joined(parts.skip(parts.len() - 2), "_"@)
    } else {
        crate::replace::replaced(kept, "/"@, "_"@)
    }
}

/// `c`, or an underscore where `c` is neither alphanumeric nor one of `-`, `_` and `.`.
pub open spec fn safe_char(c: char, alphanumeric: bool) -> char {
    if alphanumeric || c == '-' || c == '_' || c == '.' {
        c
    } else {
        '_'
    }
}

/// The readable part of a slug.
pub open spec fn project_label(path: Seq<char>) -> Seq<char> {
    project_part(path).map_values(|c: char| safe_char(c, letter_or_digit(c)))
}

/// A slug out of its readable part and a hash.
pub open spec fn slug(label: Seq<char>, hash: u64) -> Seq<char> {
    label + "_"@ + crate::text::number((hash & 0xFFFF) as nat, 16)
}

/// Whether a character is safe in a file name: one of `-`, `_` and `.`, or a letter or digit,
/// which among the ASCII characters is one of `a` to `z`, `A` to `Z` and `0` to `9`.
pub open spec fn file_safe(c: char) -> bool {
    ||| c == '-'
    ||| c == '_'
    ||| c == '.'
    ||| ascii_letter_or_digit(c)
    ||| c > '\u{7f}' && letter_or_digit(c)
}

/// `c`, or an underscore where `c` is neither alphanumeric nor one of `-`, `_` and `.`.
pub fn sanitize_char(c: char, alphanumeric: bool) -> (safe: char)
    ensures
        safe == safe_char(c, alphanumeric),
{
    if alphanumeric || c == '-' || c == '_' || c == '.' {
        c
    } else {
        '_'
    }
}

/// A slug out of its readable part and a hash.
pub fn make_slug(label: &str, hash: u64) -> (result: String)
    ensures
        result@ == slug(label@, hash),
{
    let mut result = label.to_owned();
    result.append("_");
    result.append(&number_text(hash & 0xFFFF, 16));
    result
}

/// Splits a path at its slashes.
fn split_path(path: &Vec<char>) -> (parts: Vec<String>)
    ensures
        parts.deep_view() == components(path@),
{
    let mut parts: Vec<String> = Vec::new();
    let mut current = String::new();
    let mut i: usize = 0;
    assert(path@.take(0) =~= Seq::empty());
    assert(parts.deep_view().push(current@) =~= components(path@.take(0)));
    while i < path.len()
        invariant
            i <= path.len(),
            components(path@.take(i as int)) == parts.deep_view().push(current@),
        decreases path.len() - i,
    {
        let c = path[i];
        let ghost front = components(path@.take(i as int));
        let ghost before = parts.deep_view();
        assert(path@.take(i + 1).drop_last() =~= path@.take(i as int));
        assert(front.drop_last() =~= before);
        if c == '/' {
            let ghost last = current@;
            parts.push(current);
            assert(parts.deep_view() =~= before.push(last));
            current = String::new();
        } else {
            current.push(c);
        }
        i += 1;
    }
    assert(path@.take(path@.len() as int) =~= path@);
    let ghost before = parts.deep_view();
    let ghost last = current@;
    parts.push(current);
    assert(parts.deep_view() =~= before.push(last));
    parts
}

/// The part of a path that names the project.
fn project_part_of(path: &str) -> (part: String)
    ensures
        part@ == project_part(path@),
{
    let mut kept = chars_of(path);
    while kept.len() > 0 && kept[kept.len() - 1] == '/'
        invariant
            without_trailing_slashes(path@) == without_trailing_slashes(kept@),
        decreases kept.len(),
    {
        let ghost before = kept@;
        kept.pop();
        assert(kept@ =~= before.drop_last());
    }
    let parts = split_path(&kept);
    if parts.len() > 2 {
        let mut last_two: Vec<String> = Vec::new();
        last_two.push(parts[parts.len() - 2].clone());
        last_two.push(parts[parts.len() - 1].clone());
        assert(last_two.deep_view() =~= parts.deep_view().skip(parts.len() - 2));
        join(&last_two, "_")
    } else {
        proof {
            reveal_strlit("/");
        }
        replace_all(&string_of(&kept), "/", "_")
    }
}

/// Generate a filesystem-safe slug from a project path: the last two directories of the path,
/// with what is unsafe in a file name written as an underscore, and four hexadecimal digits or
/// fewer of the path's hash.
pub fn project_slug_from_path(path: &str) -> (result: String)
    ensures
        result@ == slug(project_label(path@), default_hash(path@)),
        forall|i: int| 0 <= i < result@.len() ==> file_safe(#[trigger] result@[i]),
        forall|i: int|
            0 <= i < project_part(path@).len() && #[trigger] project_part(path@)[i] <= '\u{7f}'
                ==> letter_or_digit(project_part(path@)[i]) == ascii_letter_or_digit(
                project_part(path@)[i],
            ),
{
    let part = chars_of(&project_part_of(path));
    let mut label = String::new();
    let mut i: usize = 0;
    while i < part.len()
        invariant
            i <= part.len(),
            part@ == project_part(path@),
            label@ == project_label(path@).take(i as int),
            forall|k: int| 0 <= k < label@.len() ==> file_safe(#[trigger] label@[k]),
            forall|k: int|
                0 <= k < i && #[trigger] part@[k] <= '\u{7f}' ==> letter_or_digit(part@[k])
                    == ascii_letter_or_digit(part@[k]),
        decreases part.len() - i,
    {
        let c = part[i];
        let safe = sanitize_char(c, is_letter_or_digit(c));
        label.push(safe);
        i += 1;
        assert(project_label(path@).take(i as int) =~= project_label(path@).take(i - 1).push(safe));
    }
    assert(project_label(path@).take(i as int) =~= project_label(path@));
    let mut hasher = DefaultHasher::new();
    hash_text(path, &mut hasher);
    assert(hasher@ =~= hashed_writes(path@));
    let hash = hasher.finish();
    let result = make_slug(&label, hash);
    proof {
        reveal_strlit("_");
        crate::text::law_number_digits((hash & 0xFFFF) as nat, 16);
    }
    result
}

/// Every path is its components with a slash between each two, and no component holds a slash.
pub proof fn law_components_make_up_the_path(path: Seq<char>)
    ensures
        components(path).len() > 0,
        crate::text::joined(components(path), "/"@) == path,
        forall|i: int|
            0 <= i < components(path).len() ==> !#[trigger] components(path)[i].contains('/'),
    decreases path.len(),
{
    reveal_strlit("/");
    reveal_with_fuel(crate::text::joined, 2);
    let parts = components(path);
    if path.len() == 0 {
        assert(crate::text::joined(parts, "/"@) =~= path);
    } else {
        law_components_make_up_the_path(path.drop_last());
        let front = components(path.drop_last());
        let c = path.last();
        if c == '/' {
            assert(parts.drop_last() =~= front);
            assert(crate::text::joined(parts, "/"@) =~= path.drop_last().push(c));
            assert(path =~= path.drop_last().push(c));
            assert forall|i: int| 0 <= i < parts.len() implies !#[trigger] parts[i].contains('/') by {
                if i < front.len() {
                    assert(!front[i].contains('/'));
                }
            }
        } else {
            assert(parts.drop_last() =~= front.drop_last());
            assert(crate::text::joined(parts, "/"@) =~= crate::text::joined(front, "/"@).push(c));
            assert(path =~= path.drop_last().push(c));
            assert forall|i: int| 0 <= i < parts.len() implies !#[trigger] parts[i].contains('/') by {
                assert(!front[i].contains('/'));
                if i == front.len() - 1 {
                    assert forall|k: int| 0 <= k < parts[i].len() implies parts[i][k] != '/' by {
                        if k < front[i].len() {
                            assert(front[i].contains(front[i][k]));
                        }
                    }
                }
            }
        }
    }
}

/// A slash at the end of a path does not change the readable part of its slug.
pub proof fn law_trailing_slash_keeps_the_label(path: Seq<char>)
    ensures
        project_label(path.push('/')) == project_label(path),
{
    assert(path.push('/').drop_last() =~= path);
}

/// Two slugs are the same only if their readable parts are and the low bits of the hashes are:
/// the hash tells apart what the readable part does not.
pub proof fn law_slug_parts_are_recoverable(a: Seq<char>, b: Seq<char>, hash_a: u64, hash_b: u64)
    requires
        slug(a, hash_a) == slug(b, hash_b),
    ensures
        a == b,
        hash_a & 0xFFFF == hash_b & 0xFFFF,
{
    reveal_strlit("_");
    let na = (hash_a & 0xFFFF) as nat;
    let nb = (hash_b & 0xFFFF) as nat;
    let da = crate::text::number(na, 16);
    let db = crate::text::number(nb, 16);
    crate::text::law_number_digits(na, 16);
    crate::text::law_number_digits(nb, 16);
    let s = slug(a, hash_a);
    assert(s == a + "_"@ + da && s == b + "_"@ + db);
    assert(s.len() == a.len() + 1 + da.len() && s.len() == b.len() + 1 + db.len());
    assert(s[a.len() as int] == '_');
    assert(s[b.len() as int] == '_');
    if a.len() < b.len() {
        assert(s[b.len() as int] == da[b.len() - a.len() - 1]);
    } else if b.len() < a.len() {
        assert(s[a.len() as int] == db[a.len() - b.len() - 1]);
    }
    assert(a =~= s.take(a.len() as int));
    assert(b =~= s.take(a.len() as int));
    assert(da =~= s.skip(a.len() as int + 1));
    assert(db =~= s.skip(a.len() as int + 1));
    crate::text::law_number_is_injective(na, nb, 16);
}

/// A slug ends with a hexadecimal digit and holds an underscore, so it is never empty and never
/// one of the names `.` and `..`.
pub proof fn law_slug_is_a_name(label: Seq<char>, hash: u64)
    ensures
        slug(label, hash).len() >= 2,
        ascii_letter_or_digit(slug(label, hash).last()),
        slug(label, hash).contains('_'),
{
    reveal_strlit("_");
    let s = slug(label, hash);
    let n = (hash & 0xFFFF) as nat;
    crate::text::law_number_digits(n, 16);
    assert(s[label.len() as int] == '_');
    assert(s.last() == crate::text::number(n, 16).last());
}

proof fn lemma_trailing_slashes_go(path: Seq<char>, slashes: Seq<char>)
    requires
        forall|i: int| 0 <= i < slashes.len() ==> #[trigger] slashes[i] == '/',
        path.len() == 0 || path.last() != '/',
    ensures
        without_trailing_slashes(path + slashes) == path,
    decreases slashes.len(),
{
    let whole = path + slashes;
    if slashes.len() == 0 {
        assert(whole =~= path);
    } else {
        assert(whole.last() == slashes[slashes.len() - 1]);
        assert(whole.drop_last() =~= path + slashes.drop_last());
        lemma_trailing_slashes_go(path, slashes.drop_last());
    }
}

proof fn lemma_last_component(before: Seq<char>, name: Seq<char>)
    requires
        !name.contains('/'),
    ensures
        components(before + seq!['/'] + name) == components(before).push(name),
    decreases name.len(),
{
    let path = before + seq!['/'] + name;
    if name.len() == 0 {
        assert(path.drop_last() =~= before);
        assert(name =~= Seq::empty());
    } else {
        assert(path.drop_last() =~= before + seq!['/'] + name.drop_last());
        assert(path.last() == name.last());
        assert(name.contains(name.last()));
        assert(!name.drop_last().contains('/')) by {
            assert forall|k: int| 0 <= k < name.drop_last().len() implies name.drop_last()[k]
                != '/' by {
                assert(name.contains(name[k]));
            }
        }
        lemma_last_component(before, name.drop_last());
        let front = components(path.drop_last());
        assert(front == components(before).push(name.drop_last()));
        assert(front.drop_last() =~= components(before));
        assert(name.drop_last().push(name.last()) =~= name);
    }
}

proof fn lemma_only_component(name: Seq<char>)
    requires
        !name.contains('/'),
    ensures
        components(name) == seq![name],
    decreases name.len(),
{
    if name.len() == 0 {
        assert(name =~= Seq::empty());
    } else {
        assert(name.contains(name.last()));
        assert(!name.drop_last().contains('/')) by {
            assert forall|k: int| 0 <= k < name.drop_last().len() implies name.drop_last()[k]
                != '/' by {
                assert(name.contains(name[k]));
            }
        }
        lemma_only_component(name.drop_last());
        assert(seq![name.drop_last()].drop_last() =~= Seq::empty());
        assert(name.drop_last().push(name.last()) =~= name);
        assert(components(name) =~= seq![name]);
    }
}

/// The readable part of a slug is made of the last two directories of the path with an
/// underscore between them, whatever comes before them and however many slashes come after: each
/// character stands in its place, and one that is neither a letter nor a digit nor one of `-`,
/// `_` and `.` is an underscore.
pub proof fn law_label_is_the_last_two_directories(
    before: Seq<char>,
    parent: Seq<char>,
    name: Seq<char>,
    slashes: Seq<char>,
)
    requires
        !parent.contains('/'),
        !name.contains('/'),
        name.len() > 0,
        forall|i: int| 0 <= i < slashes.len() ==> #[trigger] slashes[i] == '/',
    ensures
        ({
            let path = before + seq!['/'] + parent + seq!['/'] + name + slashes;
            let wanted = parent + seq!['_'] + name;
            &&& project_label(path).len() == wanted.len()
            &&& forall|i: int|
                0 <= i < wanted.len() ==> #[trigger] project_label(path)[i] == if letter_or_digit(
                    wanted[i],
                ) || wanted[i] == '-' || wanted[i] == '_' || wanted[i] == '.' {
                    wanted[i]
                } else {
                    '_'
                }
        }),
{
    reveal_strlit("_");
    reveal_with_fuel(crate::text::joined, 2);
    let front = before + seq!['/'] + parent;
    let kept = front + seq!['/'] + name;
    assert(kept.last() == name.last());
    assert(name.contains(name.last()));
    lemma_trailing_slashes_go(kept, slashes);
    lemma_last_component(front, name);
    lemma_last_component(before, parent);
    law_components_make_up_the_path(before);
    let parts = components(kept);
    assert(parts == components(before).push(parent).push(name));
    assert(parts.skip(parts.len() - 2) =~= seq![parent, name]);
    assert(seq![parent, name].drop_last() =~= seq![parent]);
    assert(crate::text::joined(seq![parent, name], "_"@) =~= parent + seq!['_'] + name);
}

/// Of a path with one slash at most, but for those at its end, the readable part of the slug is
/// the whole path, with the slash and every other character that is neither a letter nor a digit
/// nor one of `-`, `_` and `.` written as an underscore.
pub proof fn law_short_path_is_kept_whole(path: Seq<char>, slashes: Seq<char>)
    requires
        path.len() == 0 || path.last() != '/',
        forall|i: int, k: int|
            0 <= i < k < path.len() ==> #[trigger] path[i] != '/' || #[trigger] path[k] != '/',
        forall|i: int| 0 <= i < slashes.len() ==> #[trigger] slashes[i] == '/',
    ensures
        project_label(path + slashes).len() == path.len(),
        forall|i: int|
            0 <= i < path.len() ==> #[trigger] project_label(path + slashes)[i] == if path[i]
                != '/' && letter_or_digit(path[i]) || path[i] == '-' || path[i] == '_' || path[i]
                == '.' {
                path[i]
            } else {
                '_'
            },
{
    reveal_strlit("/");
    reveal_strlit("_");
    lemma_trailing_slashes_go(path, slashes);
    if path.contains('/') {
        let at = choose|at: int| 0 <= at < path.len() && path[at] == '/';
        let parent = path.take(at);
        let name = path.skip(at + 1);
        assert(path =~= parent + seq!['/'] + name);
        assert(!parent.contains('/')) by {
            assert forall|k: int| 0 <= k < parent.len() implies parent[k] != '/' by {
                assert(path[k] != '/' || path[at] != '/');
            }
        }
        assert(!name.contains('/')) by {
            assert forall|k: int| 0 <= k < name.len() implies name[k] != '/' by {
                assert(path[at] != '/' || path[at + 1 + k] != '/');
            }
        }
        lemma_last_component(parent, name);
        lemma_only_component(parent);
    } else {
        lemma_only_component(path);
    }
    assert(components(path).len() <= 2);
    lemma_one_character_replaced(path, '/', '_');
    assert("/"@ =~= seq!['/']);
    assert("_"@ =~= seq!['_']);
    assert(project_part(path + slashes) == path.map_values(
        |c: char|
            if c == '/' {
                '_'
            } else {
                c
            },
    ));
}

proof fn lemma_one_character_replaced(text: Seq<char>, from: char, to: char)
    ensures
        crate::replace::replaced(text, seq![from], seq![to]) == text.map_values(
            |c: char|
                if c == from {
                    to
                } else {
                    c
                },
        ),
    decreases text.len(),
{
    let wanted = text.map_values(
        |c: char|
            if c == from {
                to
            } else {
                c
            },
    );
    if text.len() == 0 {
        assert(crate::replace::replaced(text, seq![from], seq![to]) =~= wanted);
    } else {
        lemma_one_character_replaced(text.skip(1), from, to);
        assert(crate::replace::occurs_at(text, seq![from], 0) <==> text[0] == from) by {
            assert(seq![from][0] == from);
            if crate::replace::occurs_at(text, seq![from], 0) {
                assert(text[0int + 0int] == seq![from][0]);
            }
        }
        assert(crate::replace::replaced(text, seq![from], seq![to]) =~= wanted);
    }
}

/// A slug is its readable part, an underscore, and the remainder of the hash by 65536 in
/// hexadecimal digits: these read back as that remainder, with no zero before them.
pub proof fn law_slug_ends_with_the_hash(label: Seq<char>, hash: u64)
    ensures
        slug(label, hash).len() > label.len() + 1,
        slug(label, hash).take(label.len() as int) == label,
        slug(label, hash)[label.len() as int] == '_',
        ({
            let digits = slug(label, hash).skip(label.len() as int + 1);
            &&& crate::text::reading(digits, 16) == hash % 0x1_0000
            &&& digits[0] == '0' ==> digits.len() == 1
            &&& forall|i: int|
                0 <= i < digits.len() ==> '0' <= #[trigger] digits[i] <= '9' || 'a' <= digits[i]
                    <= 'f'
        }),
{
    reveal_strlit("_");
    let low = hash & 0xFFFF;
    assert(hash & 0xFFFF == hash % 0x1_0000) by (bit_vector);
    let digits = slug(label, hash).skip(label.len() as int + 1);
    crate::text::law_number_digits(low as nat, 16);
    crate::text::law_number_reads_back(low as nat, 16);
    assert(digits =~= crate::text::number(low as nat, 16));
    assert(slug(label, hash).take(label.len() as int) =~= label);
}

/// A session that has set no flag is not in project auth mode.
pub proof fn law_project_auth_is_off_at_first(configs: Map<Seq<char>, bool>, session_id: Seq<char>)
    requires
        !configs.contains_key(session_id),
    ensures
        !project_auth_for(configs, session_id),
{
}

/// An alphanumeric character and each of `-`, `_` and `.` is kept, and any other becomes an
/// underscore; so nothing but an underscore is ever brought in.
pub proof fn law_unsafe_characters_become_underscores(c: char, alphanumeric: bool)
    ensures
        alphanumeric || c == '-' || c == '_' || c == '.' ==> safe_char(c, alphanumeric) == c,
        !alphanumeric && c != '-' && c != '_' && c != '.' ==> safe_char(c, alphanumeric) == '_',
        safe_char(safe_char(c, alphanumeric), alphanumeric) == safe_char(c, alphanumeric),
{
}

/// The hash in a slug is that of the whole path, trailing slashes and all: it is what a fresh
/// default hasher finishes with after the writes of that path alone.
pub proof fn law_hash_is_of_the_whole_path(path: Seq<char>)
    ensures
        default_hash(path)
            == <DefaultHasher as vstd::std_specs::hash::DefaultHasherAdditionalSpecFns>::spec_finish(
            hashed_writes(path),
        ),
{
}

} // verus!
