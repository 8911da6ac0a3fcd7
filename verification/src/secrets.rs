//! The local secret store: names that may be stored, the manifest that lists
//! the stored names, the value kept in a secret file, and the OS keyring that
//! is tried before the file copy.
use vstd::prelude::*;

use crate::os_keyring::{delete_credential, get_password, open_entry, set_password, Keyring, KeyringRequest};
use crate::suggest::{lemma_seq_less_total, lemma_seq_less_trans, seq_less, str_less};
use crate::text::{
    cat3, chars_of, join, join_strings, lines, lemma_join_push, str_eq, str_lines, str_trim,
    str_trim_end_newlines, to_string, trim, trim_end_newlines,
};

verus! {

/// The keyring service under which secrets are stored.
pub const KEYRING_SERVICE: &'static str = "ycallr";

// ---------------------------------------------------------------------------
// Names and values
// ---------------------------------------------------------------------------

/// A character that a secret name may hold: ASCII letter, digit or `_`.
pub open spec fn secret_name_char(c: char) -> bool {
    ('a' <= c && c <= 'z') || ('A' <= c && c <= 'Z') || ('0' <= c && c <= '9') || c == '_'
}

/// The error for a secret name, if it is not a valid one.
pub open spec fn secret_name_error(name: Seq<char>) -> Option<Seq<char>> {
    if name.len() == 0 {
        Some("secret name cannot be empty"@)
    } else if !(forall|i: int| 0 <= i < name.len() ==> secret_name_char(#[trigger] name[i])) {
        Some("secret name '"@ + name + "' must be ASCII alphanumeric or underscore"@)
    } else {
        None
    }
}

/// Accepts a non-empty name of ASCII letters, digits and underscores.
pub fn validate_secret_name(name: &str) -> (r: Result<(), String>)
    ensures
        match r {
            Ok(()) => secret_name_error(name@) is None,
            Err(e) => secret_name_error(name@) == Some(e@),
        },
{
    let v = chars_of(name);
    if v.len() == 0 {
        return Err(to_string("secret name cannot be empty"));
    }
    let mut i: usize = 0;
    while i < v.len()
        invariant
            v@ == name@,
            i <= v@.len(),
            forall|j: int| 0 <= j < i ==> secret_name_char(#[trigger] v@[j]),
        decreases v.len() - i,
    {
        let c = v[i];
        let ok = ('a' <= c && c <= 'z') || ('A' <= c && c <= 'Z') || ('0' <= c && c <= '9') || c
            == '_';
        if !ok {
            return Err(cat3("secret name '", name, "' must be ASCII alphanumeric or underscore"));
        }
        i = i + 1;
    }
    Ok(())
}

/// The error for a value that would be stored under `name`, if it is blank.
pub open spec fn secret_value_error(name: Seq<char>, value: Seq<char>) -> Option<Seq<char>> {
    if trim(value).len() == 0 {
        Some("secret '"@ + name + "' cannot be empty"@)
    } else {
        None
    }
}

/// Refuses a value that is empty or only whitespace.
pub fn check_secret_value(name: &str, value: &str) -> (r: Result<(), String>)
    ensures
        match r {
            Ok(()) => secret_value_error(name@, value@) is None,
            Err(e) => secret_value_error(name@, value@) == Some(e@),
        },
{
    let t = str_trim(value);
    if t.unicode_len() == 0 {
        Err(cat3("secret '", name, "' cannot be empty"))
    } else {
        Ok(())
    }
}

/// The secret that a secret file holds: its content without trailing line
/// endings, if anything is left.
pub open spec fn file_secret(content: Seq<char>) -> Option<Seq<char>> {
    if trim_end_newlines(content).len() == 0 {
        None
    } else {
        Some(trim_end_newlines(content))
    }
}

/// The secret that a secret file with this content holds.
pub fn secret_file_value(content: &str) -> (r: Option<String>)
    ensures
        match r {
            Some(v) => file_secret(content@) == Some(v@),
            None => file_secret(content@) is None,
        },
{
    let value = str_trim_end_newlines(content);
    if value.unicode_len() == 0 {
        None
    } else {
        Some(value)
    }
}

// ---------------------------------------------------------------------------
// The names manifest
// ---------------------------------------------------------------------------

/// The names that a manifest lists: its non-empty lines.
pub open spec fn manifest_names(content: Seq<char>) -> Seq<Seq<char>> {
    lines(content).filter(|l: Seq<char>| l.len() > 0)
}

/// Reads the names that a manifest lists, one per non-empty line.
pub fn parse_names_manifest(content: &str) -> (r: Vec<String>)
    ensures
        r.deep_view() == manifest_names(content@),
{
    let all = str_lines(content);
    let mut r: Vec<String> = Vec::new();
    let mut i: usize = 0;
    proof {
        reveal_with_fuel(Seq::filter, 1);
        assert(all.deep_view().take(0) =~= Seq::<Seq<char>>::empty());
    }
    while i < all.len()
        invariant
            i <= all@.len(),
            all.deep_view() == lines(content@),
            r.deep_view() == all.deep_view().take(i as int).filter(|l: Seq<char>| l.len() > 0),
        decreases all.len() - i,
    {
        let ghost pre = all.deep_view().take(i as int);
        proof {
            assert(all.deep_view().take(i + 1) =~= pre.push(all@[i as int]@));
            pre.lemma_filter_push(all@[i as int]@, |l: Seq<char>| l.len() > 0);
        }
        if all[i].unicode_len() > 0 {
            let ghost before = r.deep_view();
            r.push(all[i].clone());
            assert(r.deep_view() =~= before.push(all@[i as int]@));
        }
        i = i + 1;
    }
    assert(all.deep_view().take(all@.len() as int) =~= all.deep_view());
    r
}

/// The names are in ascending order.
pub open spec fn names_sorted(s: Seq<Seq<char>>) -> bool {
    forall|i: int, j: int| 0 <= i < j < s.len() ==> !seq_less(#[trigger] s[j], #[trigger] s[i])
}

/// Inserts `x` into the sorted `v`, after every name not greater than it.
fn insert_name_sorted(v: &mut Vec<String>, x: String)
    requires
        names_sorted(old(v).deep_view()),
    ensures
        names_sorted(final(v).deep_view()),
        final(v).deep_view().to_multiset() == old(v).deep_view().to_multiset().insert(x@),
{
    let ghost s = v.deep_view();
    let xv = chars_of(x.as_str());
    let mut k: usize = 0;
    while k < v.len() && !str_less(&xv, &chars_of(v[k].as_str()))
        invariant
            k <= v@.len(),
            s == v.deep_view(),
            xv@ == x@,
            forall|j: int| 0 <= j < k ==> !seq_less(x@, #[trigger] s[j]),
        decreases v.len() - k,
    {
        k = k + 1;
    }
    let ghost xs = x@;
    v.insert(k, x);
    proof {
        let t = v.deep_view();
        assert(t =~= s.insert(k as int, xs));
        assert forall|a: int, b: int| 0 <= a < b < t.len() implies !seq_less(
            #[trigger] t[b],
            #[trigger] t[a],
        ) by {
            if b < k {
                assert(t[a] == s[a] && t[b] == s[b]);
            } else if a < k && b == k {
                assert(t[a] == s[a]);
                lemma_seq_less_total(xs, s[a]);
            } else if a < k && b > k {
                assert(t[a] == s[a] && t[b] == s[b - 1]);
                // s[a] <= x < s[k] <= s[b-1]
                lemma_seq_less_total(xs, s[a]);
                lemma_seq_less_total(s[a], s[b - 1]);
                if seq_less(s[b - 1], s[a]) {
                    if s[a] == xs {
                        if k == b - 1 {
                        } else {
                            assert(!seq_less(s[b - 1], s[k as int]));
                            lemma_seq_less_total(s[k as int], s[b - 1]);
                            if s[k as int] != s[b - 1] {
                                lemma_seq_less_trans(xs, s[k as int], s[b - 1]);
                            }
                        }
                    } else {
                        lemma_seq_less_trans(s[a], xs, s[k as int]);
                        if k < b - 1 {
                            lemma_seq_less_total(s[k as int], s[b - 1]);
                            if s[k as int] != s[b - 1] {
                                lemma_seq_less_trans(s[a], s[k as int], s[b - 1]);
                            }
                        }
                        lemma_seq_less_trans(s[b - 1], s[a], s[k as int]);
                        lemma_seq_less_total(s[k as int], s[b - 1]);
                        if k < b - 1 {
                            assert(!seq_less(s[b - 1], s[k as int]));
                        }
                    }
                }
            } else if a == k {
                assert(t[b] == s[b - 1]);
                lemma_seq_less_total(xs, s[k as int]);
                if k < b - 1 {
                    assert(!seq_less(s[b - 1], s[k as int]));
                    lemma_seq_less_total(s[k as int], s[b - 1]);
                    if seq_less(s[b - 1], xs) {
                        if s[k as int] == s[b - 1] {
                        } else {
                            lemma_seq_less_trans(xs, s[k as int], s[b - 1]);
                            lemma_seq_less_total(xs, s[b - 1]);
                        }
                    }
                } else {
                    lemma_seq_less_total(xs, s[b - 1]);
                }
            } else {
                assert(t[a] == s[a - 1] && t[b] == s[b - 1]);
            }
        }
        assert(s =~= s.subrange(0, k as int) + s.subrange(k as int, s.len() as int));
        assert(s.insert(k as int, xs) =~= s.subrange(0, k as int).push(xs) + s.subrange(
            k as int,
            s.len() as int,
        ));
        vstd::seq_lib::lemma_multiset_commutative(
            s.subrange(0, k as int).push(xs),
            s.subrange(k as int, s.len() as int),
        );
        vstd::seq_lib::lemma_multiset_commutative(
            s.subrange(0, k as int),
            s.subrange(k as int, s.len() as int),
        );
        s.subrange(0, k as int).to_multiset_ensures();
    }
}

/// The names in ascending order (the order of `<` on strings).
pub fn sort_names(names: &Vec<String>) -> (r: Vec<String>)
    ensures
        names_sorted(r.deep_view()),
        r.deep_view().to_multiset() == names.deep_view().to_multiset(),
{
    let mut r: Vec<String> = Vec::new();
    let mut i: usize = 0;
    proof {
        assert(names.deep_view().take(0) =~= Seq::<Seq<char>>::empty());
        assert(r.deep_view() =~= Seq::<Seq<char>>::empty());
    }
    while i < names.len()
        invariant
            i <= names@.len(),
            names_sorted(r.deep_view()),
            r.deep_view().to_multiset() == names.deep_view().take(i as int).to_multiset(),
        decreases names.len() - i,
    {
        proof {
            assert(names.deep_view().take(i + 1) =~= names.deep_view().take(i as int).push(
                names@[i as int]@,
            ));
            names.deep_view().take(i as int).to_multiset_ensures();
        }
        insert_name_sorted(&mut r, names[i].clone());
        i = i + 1;
    }
    assert(names.deep_view().take(names@.len() as int) =~= names.deep_view());
    r
}

/// The manifest after storing `name`: unchanged if it lists the name,
/// else the names with it added, in ascending order.
pub open spec fn names_after_add(before: Seq<Seq<char>>, name: Seq<char>, after: Seq<Seq<char>>) -> bool {
    if before.contains(name) {
        after == before
    } else {
        &&& names_sorted(after)
        &&& after.to_multiset() == before.push(name).to_multiset()
    }
}

/// The test "is not `name`".
pub open spec fn other_than(name: Seq<char>) -> spec_fn(Seq<char>) -> bool {
    |n: Seq<char>| n != name
}

/// The manifest after removing `name`: every other name, in order.
pub open spec fn names_after_remove(before: Seq<Seq<char>>, name: Seq<char>) -> Seq<Seq<char>> {
    before.filter(other_than(name))
}

/// Whether `names` lists `name`.
pub fn names_contain(names: &Vec<String>, name: &str) -> (r: bool)
    ensures
        r == names.deep_view().contains(name@),
{
    let mut i: usize = 0;
    while i < names.len()
        invariant
            i <= names@.len(),
            forall|j: int| 0 <= j < i ==> names.deep_view()[j] != name@,
        decreases names.len() - i,
    {
        if str_eq(names[i].as_str(), name) {
            assert(names.deep_view()[i as int] == name@);
            return true;
        }
        i = i + 1;
    }
    false
}

/// The manifest's names after storing (`add`) or removing a secret.
pub fn update_names(names: &Vec<String>, name: &str, add: bool) -> (r: Vec<String>)
    ensures
        add ==> names_after_add(names.deep_view(), name@, r.deep_view()),
        !add ==> r.deep_view() == names_after_remove(names.deep_view(), name@),
{
    if add {
        if names_contain(names, name) {
            names.clone()
        } else {
            let mut all = names.clone();
            assert(all.deep_view() =~= names.deep_view());
            all.push(to_string(name));
            assert(all.deep_view() =~= names.deep_view().push(name@));
            sort_names(&all)
        }
    } else {
        let mut r: Vec<String> = Vec::new();
        let mut i: usize = 0;
        proof {
            reveal_with_fuel(Seq::filter, 1);
            assert(names.deep_view().take(0) =~= Seq::<Seq<char>>::empty());
        }
        while i < names.len()
            invariant
                i <= names@.len(),
                r.deep_view() == names.deep_view().take(i as int).filter(
                    other_than(name@),
                ),
            decreases names.len() - i,
        {
            let ghost pre = names.deep_view().take(i as int);
            proof {
                assert(names.deep_view().take(i + 1) =~= pre.push(names@[i as int]@));
                pre.lemma_filter_push(names@[i as int]@, other_than(name@));
            }
            if !str_eq(names[i].as_str(), name) {
                let ghost before = r.deep_view();
                r.push(names[i].clone());
                assert(r.deep_view() =~= before.push(names@[i as int]@));
            }
            i = i + 1;
        }
        assert(names.deep_view().take(names@.len() as int) =~= names.deep_view());
        r
    }
}

/// The manifest text for `names`: one name per line, each line ended, or
/// no manifest at all when no name is left.
pub open spec fn manifest_text(names: Seq<Seq<char>>) -> Option<Seq<char>> {
    if names.len() == 0 {
        None
    } else {
        Some(join(names, seq!['\n']) + seq!['\n'])
    }
}

/// The manifest file's content for `names`, or `None` when it should be removed.
pub fn render_names_manifest(names: &Vec<String>) -> (r: Option<String>)
    ensures
        match r {
            Some(t) => manifest_text(names.deep_view()) == Some(t@),
            None => manifest_text(names.deep_view()) is None,
        },
{
    if names.len() == 0 {
        return None;
    }
    let mut body = join_strings(names.as_slice(), "\n");
    crate::text::push_char(&mut body, '\n');
    proof {
        reveal_strlit("\n");
        assert("\n"@ =~= seq!['\n']);
    }
    Some(body)
}

/// A stored name is listed afterwards, and a removed one is not.
pub proof fn law_manifest_membership(before: Seq<Seq<char>>, name: Seq<char>, added: Seq<Seq<char>>)
    requires
        names_after_add(before, name, added),
    ensures
        added.contains(name),
        !names_after_remove(before, name).contains(name),
        forall|n: Seq<char>| before.contains(n) ==> added.contains(n),
{
    if !before.contains(name) {
        before.to_multiset_ensures();
        before.push(name).to_multiset_ensures();
        added.to_multiset_ensures();
        assert(before.push(name).contains(name)) by {
            assert(before.push(name)[before.len() as int] == name);
        }
        assert(added.to_multiset().count(name) > 0);
        assert forall|n: Seq<char>| before.contains(n) implies added.contains(n) by {
            let i = choose|i: int| 0 <= i < before.len() && before[i] == n;
            assert(before.push(name)[i] == n);
            assert(before.push(name).contains(n));
            assert(before.push(name).to_multiset().count(n) > 0);
            assert(added.to_multiset().count(n) > 0);
        }
    }
    let rem = names_after_remove(before, name);
    if rem.contains(name) {
        let i = choose|i: int| 0 <= i < rem.len() && rem[i] == name;
        before.lemma_filter_pred(other_than(name), i);
    }
}

/// Removing keeps a sorted list without repeats sorted and without repeats.
proof fn lemma_remove_keeps_order(before: Seq<Seq<char>>, name: Seq<char>)
    requires
        names_sorted(before),
        before.no_duplicates(),
    ensures
        names_sorted(names_after_remove(before, name)),
        names_after_remove(before, name).no_duplicates(),
    decreases before.len(),
{
    if before.len() > 0 {
        let init = before.drop_last();
        let x = before.last();
        assert(init.push(x) =~= before);
        assert(names_sorted(init));
        lemma_remove_keeps_order(init, name);
        init.lemma_filter_push(x, other_than(name));
        let sub = names_after_remove(init, name);
        assert(names_sorted(sub));
        assert(sub.no_duplicates());
        if x != name {
            assert forall|k: int| 0 <= k < sub.len() implies sub[k] != x && !seq_less(x, sub[k]) by {
                assert(sub.contains(sub[k]));
                init.lemma_filter_contains_rev(other_than(name), sub[k]);
                let q = choose|q: int| 0 <= q < init.len() && init[q] == sub[k];
                assert(before[q] == sub[k]);
                assert(before[before.len() - 1] == x);
            }
            let r = sub.push(x);
            assert forall|i: int, j: int| 0 <= i < j < r.len() implies !seq_less(#[trigger] r[j], #[trigger] r[i]) by {
                if j == sub.len() {
                    assert(r[j] == x);
                    assert(r[i] == sub[i]);
                } else {
                    assert(r[i] == sub[i] && r[j] == sub[j]);
                }
            }
            assert forall|i: int, j: int| 0 <= i < r.len() && 0 <= j < r.len() && i != j implies r[i] != r[j] by {
                if i == sub.len() {
                    assert(r[j] == sub[j]);
                } else if j == sub.len() {
                    assert(r[i] == sub[i]);
                } else {
                    assert(r[i] == sub[i] && r[j] == sub[j]);
                }
            }
        }
    } else {
        reveal(Seq::filter);
    }
}

/// Removing a name twice leaves what removing it once leaves.
proof fn lemma_remove_twice(before: Seq<Seq<char>>, name: Seq<char>)
    ensures
        names_after_remove(names_after_remove(before, name), name) == names_after_remove(before, name),
    decreases before.len(),
{
    if before.len() > 0 {
        let init = before.drop_last();
        let x = before.last();
        assert(init.push(x) =~= before);
        lemma_remove_twice(init, name);
        init.lemma_filter_push(x, other_than(name));
        names_after_remove(init, name).lemma_filter_push(x, other_than(name));
    } else {
        reveal_with_fuel(Seq::filter, 1);
        assert(names_after_remove(before, name) =~= before);
    }
}

/// The manifest keeps its shape: storing or removing a name keeps a sorted
/// list of names without repeats sorted and without repeats, and removing a
/// name a second time changes nothing more.
pub proof fn law_manifest_stays_sorted(before: Seq<Seq<char>>, name: Seq<char>, added: Seq<Seq<char>>)
    requires
        names_sorted(before),
        before.no_duplicates(),
        names_after_add(before, name, added),
    ensures
        names_sorted(added),
        added.no_duplicates(),
        names_sorted(names_after_remove(before, name)),
        names_after_remove(before, name).no_duplicates(),
        names_after_remove(names_after_remove(before, name), name) == names_after_remove(before, name),
{
    lemma_remove_keeps_order(before, name);
    lemma_remove_twice(before, name);
    if !before.contains(name) {
        let b = before.push(name);
        assert forall|i: int, j: int| 0 <= i < b.len() && 0 <= j < b.len() && i != j implies b[i] != b[j] by {
            if i == before.len() {
                assert(b[j] == before[j]);
            } else if j == before.len() {
                assert(b[i] == before[i]);
            } else {
                assert(b[i] == before[i] && b[j] == before[j]);
            }
        }
        b.lemma_multiset_has_no_duplicates();
        assert forall|x: Seq<char>| added.to_multiset().contains(x) implies added.to_multiset().count(x) == 1 by {
            assert(b.to_multiset().contains(x));
        }
        added.lemma_multiset_has_no_duplicates_conv();
    }
}

// ---------------------------------------------------------------------------
// The OS keyring
// ---------------------------------------------------------------------------

/// The requests of writing `value` as the secret `name`: open the entry
/// ([`KEYRING_SERVICE`], `name`); if that gave one, set its password to
/// `value`; if that succeeded, read it back.
pub open spec fn write_requests(name: Seq<char>, value: Seq<char>, opened: bool, written: bool) -> Seq<
    KeyringRequest,
> {
    let s = KEYRING_SERVICE@;
    if !opened {
        seq![KeyringRequest::Open(s, name, false)]
    } else if !written {
        seq![KeyringRequest::Open(s, name, true), KeyringRequest::Write(s, name, value, false)]
    } else {
        seq![
            KeyringRequest::Open(s, name, true),
            KeyringRequest::Write(s, name, value, true),
            KeyringRequest::Get(s, name),
        ]
    }
}

/// The requests of reading the secret `name`: open the entry
/// ([`KEYRING_SERVICE`], `name`) and, if that gave one, read its password.
pub open spec fn read_requests(name: Seq<char>, opened: bool) -> Seq<KeyringRequest> {
    let s = KEYRING_SERVICE@;
    if opened {
        seq![KeyringRequest::Open(s, name, true), KeyringRequest::Get(s, name)]
    } else {
        seq![KeyringRequest::Open(s, name, false)]
    }
}

/// The requests of removing the secret `name`: open the entry
/// ([`KEYRING_SERVICE`], `name`) and, if that gave one, delete its
/// credential.
pub open spec fn delete_requests(name: Seq<char>, opened: bool) -> Seq<KeyringRequest> {
    let s = KEYRING_SERVICE@;
    if opened {
        seq![KeyringRequest::Open(s, name, true), KeyringRequest::Delete(s, name)]
    } else {
        seq![KeyringRequest::Open(s, name, false)]
    }
}

/// Whether a keyring write is confirmed: reading the entry back after the
/// write (`read_back`; `None` when the write or the read failed) gave
/// exactly the value written.
pub fn keyring_confirms(read_back: Option<String>, value: &str) -> (r: bool)
    ensures
        r == (opt_chars(read_back) == Some(value@)),
{
    match read_back {
        Some(back) => str_eq(back.as_str(), value),
        None => false,
    }
}

/// Checks `name` and `value` and tries to store the value in the OS keyring,
/// in the entry ([`KEYRING_SERVICE`], `name`): the requests made are
/// [`write_requests`]. `Ok(true)` means the keyring now holds it (it was
/// stored and read back equal, see [`keyring_confirms`]); `Ok(false)` that it
/// does not. In both cases the caller keeps a file copy next, so that reads
/// work where the keyring is unreliable. A refused name or value asks
/// nothing of the keyring.
pub fn set_secret(name: &str, value: &str, keyring: &mut Keyring) -> (r: Result<bool, String>)
    ensures
        match r {
            Ok(_) => secret_name_error(name@) is None && secret_value_error(name@, value@) is None,
            Err(e) => secret_name_error(name@) == Some(e@) || (secret_name_error(name@) is None
                && secret_value_error(name@, value@) == Some(e@)),
        },
        r is Err ==> final(keyring)@ == old(keyring)@,
        r matches Ok(b) ==> exists|opened: bool, written: bool|
            final(keyring)@ == old(keyring)@ + #[trigger] write_requests(name@, value@, opened, written)
                && (b ==> opened && written),
{
    validate_secret_name(name)?;
    check_secret_value(name, value)?;
    let ghost before = keyring@;
    let ghost mut opened = false;
    let ghost mut written = false;
    let read_back = match open_entry(keyring, KEYRING_SERVICE, name) {
        Some(entry) => {
            proof {
                opened = true;
            }
            if set_password(keyring, &entry, value) {
                proof {
                    written = true;
                }
                get_password(keyring, &entry)
            } else {
                None
            }
        },
        None => None,
    };
    assert(keyring@ =~= before + write_requests(name@, value@, opened, written));
    Ok(keyring_confirms(read_back, value))
}

/// The secret to use: the keyring's value when it has a non-empty one,
/// else what the secret file holds.
pub open spec fn chosen_secret(from_keyring: Option<Seq<char>>, file_content: Option<Seq<char>>) -> Option<
    Seq<char>,
> {
    match from_keyring {
        Some(v) if v.len() > 0 => Some(v),
        _ => match file_content {
            Some(c) => file_secret(c),
            None => None,
        },
    }
}

/// Picks the secret from the keyring's answer and the secret file's content.
pub fn choose_secret(from_keyring: Option<String>, file_content: Option<String>) -> (r: Option<String>)
    ensures
        match r {
            Some(v) => chosen_secret(opt_chars(from_keyring), opt_chars(file_content)) == Some(v@),
            None => chosen_secret(opt_chars(from_keyring), opt_chars(file_content)) is None,
        },
{
    if let Some(v) = from_keyring {
        if v.unicode_len() > 0 {
            return Some(v);
        }
    }
    match file_content {
        Some(c) => secret_file_value(c.as_str()),
        None => None,
    }
}

/// The view of an optional string.
pub open spec fn opt_chars(o: Option<String>) -> Option<Seq<char>> {
    match o {
        Some(s) => Some(s@),
        None => None,
    }
}

/// What the OS keyring holds for `name`, asked of the entry
/// ([`KEYRING_SERVICE`], `name`): the requests made are [`read_requests`],
/// and nothing comes back when no entry could be opened. What the entry
/// holds is outside state: nothing more is stated of it.
pub fn keyring_secret(name: &str, keyring: &mut Keyring) -> (r: Option<String>)
    ensures
        exists|opened: bool|
            final(keyring)@ == old(keyring)@ + #[trigger] read_requests(name@, opened) && (!opened
                ==> r is None),
{
    let ghost before = keyring@;
    match open_entry(keyring, KEYRING_SERVICE, name) {
        Some(entry) => {
            let r = get_password(keyring, &entry);
            assert(keyring@ =~= before + read_requests(name@, true));
            r
        },
        None => {
            assert(keyring@ =~= before + read_requests(name@, false));
            None
        },
    }
}

/// The secret stored under `name`: the OS keyring's value if it has a
/// non-empty one (asked as [`keyring_secret`] does), else the one in the
/// secret file, whose content the caller read (`None` when there is no
/// readable file). Whatever the keyring holds, the result is
/// [`chosen_secret`] of some keyring answer and the file.
pub fn get_secret(name: &str, file_content: Option<String>, keyring: &mut Keyring) -> (r: Option<
    String,
>)
    ensures
        r matches Some(v) ==> v@.len() > 0,
        (match file_content {
            Some(c) => file_secret(c@) is Some,
            None => false,
        }) ==> r is Some,
        exists|k: Option<Seq<char>>|
            #[trigger] chosen_secret(k, opt_chars(file_content)) == opt_chars(r),
        exists|opened: bool|
            final(keyring)@ == old(keyring)@ + #[trigger] read_requests(name@, opened) && (!opened
                ==> opt_chars(r) == chosen_secret(None, opt_chars(file_content))),
{
    let from_keyring = keyring_secret(name, keyring);
    let ghost fc = opt_chars(file_content);
    let ghost fk = opt_chars(from_keyring);
    let r = choose_secret(from_keyring, file_content);
    assert(chosen_secret(fk, fc) == opt_chars(r));
    r
}

/// Checks `name` and removes its keyring entry ([`KEYRING_SERVICE`],
/// `name`): the requests made are [`delete_requests`], so the credential is
/// deleted whenever the entry can be opened. The caller removes the file
/// copy and the manifest line next. A refused name asks nothing of the
/// keyring.
pub fn unset_secret(name: &str, keyring: &mut Keyring) -> (r: Result<(), String>)
    ensures
        match r {
            Ok(()) => secret_name_error(name@) is None,
            Err(e) => secret_name_error(name@) == Some(e@),
        },
        r is Err ==> final(keyring)@ == old(keyring)@,
        r is Ok ==> exists|opened: bool|
            final(keyring)@ == old(keyring)@ + #[trigger] delete_requests(name@, opened),
{
    validate_secret_name(name)?;
    let ghost before = keyring@;
    if let Some(entry) = open_entry(keyring, KEYRING_SERVICE, name) {
        delete_credential(keyring, &entry);
        assert(keyring@ =~= before + delete_requests(name@, true));
    } else {
        assert(keyring@ =~= before + delete_requests(name@, false));
    }
    Ok(())
}

/// A value that `set_secret` accepts and that does not end in a line ending
/// is read back unchanged from its file copy, whatever the keyring holds
/// (when the keyring gives nothing).
pub proof fn law_stored_value_read_back(name: Seq<char>, value: Seq<char>)
    requires
        secret_value_error(name, value) is None,
        value.len() > 0 ==> value.last() != '\n' && value.last() != '\r',
    ensures
        file_secret(value) == Some(value),
        chosen_secret(None, Some(value)) == Some(value),
{
    if value.len() == 0 {
        assert(trim(value) =~= value);
    }
}

} // verus!
