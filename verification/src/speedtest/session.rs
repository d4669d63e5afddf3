//! The session with the server catalog: its id, its token and its cookies.

use vstd::prelude::*;

use crate::clock::{now_seconds, now_subsec_nanos};
use crate::text::{
    decimal, eq_ignore_case, find_char, first_index, from_chars, hex_digits, hexadecimal,
    lowered, parse_signed, parsed_signed, pieces, same_but_case, same_text, split, text_before,
    text_below, the_first_place_is_the_first, to_chars, to_decimal, to_hex_digits, to_hexadecimal,
    trim, trimmed,
};
use crate::urls::opt_view;

verus! {

/// A cookie.
#[derive(Debug)]
pub struct Cookie {
    pub name: String,
    pub value: String,
}

/// Name and value of a cookie.
pub type CookiePair = (Seq<char>, Seq<char>);

/// Cookies, in order of their names, each name once.
#[derive(Debug)]
pub struct CookieJar {
    entries: Vec<Cookie>,
}

/// The first entry with the given name at or after `from`.
pub open spec fn named(entries: Seq<CookiePair>, name: Seq<char>, from: int) -> Option<int>
    decreases entries.len() - from,
{
    if from < 0 || from >= entries.len() {
        None
    } else if entries[from].0 == name {
        Some(from)
    } else {
        named(entries, name, from + 1)
    }
}

/// The value of each name.
pub open spec fn cookie_map(entries: Seq<CookiePair>) -> Map<Seq<char>, Seq<char>> {
    Map::new(
        |name: Seq<char>| named(entries, name, 0) is Some,
        |name: Seq<char>| entries[named(entries, name, 0)->0].1,
    )
}

/// Whether the names are in order and none occurs twice.
pub open spec fn ascending(entries: Seq<CookiePair>) -> bool {
    forall|i: int, j: int|
        0 <= i < j < entries.len() ==> text_before(
            (#[trigger] entries[i]).0,
            (#[trigger] entries[j]).0,
        )
}

proof fn lemma_named(entries: Seq<CookiePair>, name: Seq<char>, from: int)
    requires
        0 <= from,
    ensures
        match named(entries, name, from) {
            Some(i) => from <= i < entries.len() && entries[i].0 == name,
            None => forall|i: int| from <= i < entries.len() ==> (#[trigger] entries[i]).0 != name,
        },
    decreases entries.len() - from,
{
    if from < entries.len() && entries[from].0 != name {
        lemma_named(entries, name, from + 1);
    }
}

proof fn lemma_named_at(entries: Seq<CookiePair>, i: int)
    requires
        ascending(entries),
        0 <= i < entries.len(),
    ensures
        named(entries, entries[i].0, 0) == Some(i),
{
    lemma_named(entries, entries[i].0, 0);
    let k = named(entries, entries[i].0, 0)->0;
    if k < i {
        crate::text::lemma_before_is_strict(entries[k].0, entries[i].0);
    } else if i < k {
        crate::text::lemma_before_is_strict(entries[i].0, entries[k].0);
    }
}

proof fn lemma_map_change(
    before: Seq<CookiePair>,
    after: Seq<CookiePair>,
    name: Seq<char>,
    value: Option<Seq<char>>,
)
    requires
        ascending(before),
        ascending(after),
        forall|i: int|
            0 <= i < before.len() && (#[trigger] before[i]).0 != name ==> after.contains(before[i]),
        forall|i: int|
            0 <= i < after.len() && (#[trigger] after[i]).0 != name ==> before.contains(after[i]),
        match value {
            Some(v) => after.contains((name, v)),
            None => forall|i: int| 0 <= i < after.len() ==> (#[trigger] after[i]).0 != name,
        },
    ensures
        cookie_map(after) == match value {
            Some(v) => cookie_map(before).insert(name, v),
            None => cookie_map(before).remove(name),
        },
{
    let expected = match value {
        Some(v) => cookie_map(before).insert(name, v),
        None => cookie_map(before).remove(name),
    };
    assert forall|n: Seq<char>| #[trigger]
        cookie_map(after).dom().contains(n) <==> expected.dom().contains(n) by {
        lemma_named(after, n, 0);
        lemma_named(before, n, 0);
        if n == name {
            if let Some(v) = value {
                let k = choose|k: int| 0 <= k < after.len() && after[k] == (name, v);
                assert(after[k].0 == name);
            }
        } else {
            if named(after, n, 0) is Some {
                let i = named(after, n, 0)->0;
                assert(before.contains(after[i]));
                let k = choose|k: int| 0 <= k < before.len() && before[k] == after[i];
                assert(before[k].0 == n);
            }
            if named(before, n, 0) is Some {
                let i = named(before, n, 0)->0;
                assert(after.contains(before[i]));
                let k = choose|k: int| 0 <= k < after.len() && after[k] == before[i];
                assert(after[k].0 == n);
            }
        }
    }
    assert forall|n: Seq<char>| cookie_map(after).dom().contains(n) implies #[trigger] cookie_map(
        after,
    )[n] == expected[n] by {
        lemma_named(after, n, 0);
        let i = named(after, n, 0)->0;
        if n == name {
            let v = value->0;
            let k = choose|k: int| 0 <= k < after.len() && after[k] == (name, v);
            lemma_named_at(after, k);
        } else {
            assert(before.contains(after[i]));
            let k = choose|k: int| 0 <= k < before.len() && before[k] == after[i];
            lemma_named_at(before, k);
        }
    }
    assert(cookie_map(after) =~= expected);
}

/// The pairs of a list of cookies.
pub open spec fn pairs(entries: Seq<Cookie>) -> Seq<CookiePair> {
    entries.map_values(|c: Cookie| (c.name@, c.value@))
}

impl View for CookieJar {
    type V = Map<Seq<char>, Seq<char>>;

    closed spec fn view(&self) -> Map<Seq<char>, Seq<char>> {
        cookie_map(pairs(self.entries@))
    }
}

impl CookieJar {
    /// The cookies in order of their names.
    pub closed spec fn listed(self) -> Seq<CookiePair> {
        pairs(self.entries@)
    }

    pub open spec fn valid(self) -> bool {
        ascending(self.listed()) && self@ == cookie_map(self.listed())
    }

    pub fn new() -> (r: CookieJar)
        ensures
            r.valid(),
            r.listed() == Seq::<CookiePair>::empty(),
            r@ == Map::<Seq<char>, Seq<char>>::empty(),
    {
        let r = CookieJar { entries: Vec::new() };
        assert(r.listed() =~= Seq::<CookiePair>::empty());
        assert(r@ =~= Map::<Seq<char>, Seq<char>>::empty());
        r
    }

    pub fn len(&self) -> (r: usize)
        ensures
            r == self.listed().len(),
    {
        self.entries.len()
    }

    /// Name and value of the `i`-th cookie in order of the names.
    pub fn entry(&self, i: usize) -> (r: &Cookie)
        requires
            i < self.listed().len(),
        ensures
            (r.name@, r.value@) == self.listed()[i as int],
    {
        &self.entries[i]
    }

    /// The first place whose name is not before `name`.
    fn place(&self, name: &str) -> (at: usize)
        requires
            self.valid(),
        ensures
            at <= self.listed().len(),
            forall|i: int| 0 <= i < at ==> text_before((#[trigger] self.listed()[i]).0, name@),
            forall|i: int|
                at <= i < self.listed().len() ==> !text_before(
                    (#[trigger] self.listed()[i]).0,
                    name@,
                ),
    {
        let mut at: usize = 0;
        while at < self.entries.len() && text_below(self.entries[at].name.as_str(), name)
            invariant
                at <= self.entries.len(),
                forall|i: int| 0 <= i < at ==> text_before((#[trigger] self.listed()[i]).0, name@),
            decreases self.entries.len() - at,
        {
            assert(self.listed()[at as int].0 == self.entries@[at as int].name@);
            at = at + 1;
        }
        proof {
            assert forall|i: int| at <= i < self.listed().len() implies !text_before(
                (#[trigger] self.listed()[i]).0,
                name@,
            ) by {
                assert(self.listed()[at as int].0 == self.entries@[at as int].name@);
                if i > at && text_before(self.listed()[i].0, name@) {
                    crate::text::lemma_before_is_transitive(
                        self.listed()[at as int].0,
                        self.listed()[i].0,
                        name@,
                    );
                }
            }
        }
        at
    }

    pub fn get(&self, name: &str) -> (r: Option<&String>)
        requires
            self.valid(),
        ensures
            match r {
                Some(value) => self@.contains_key(name@) && value@ == self@[name@],
                None => !self@.contains_key(name@),
            },
    {
        let at: usize = self.place(name);
        proof {
            lemma_named(self.listed(), name@, 0);
        }
        if at < self.entries.len() && same_text(self.entries[at].name.as_str(), name) {
            proof {
                assert(self.listed()[at as int] == (
                    self.entries@[at as int].name@,
                    self.entries@[at as int].value@,
                ));
                lemma_named_at(self.listed(), at as int);
            }
            return Some(&self.entries[at].value);
        }
        proof {
            if named(self.listed(), name@, 0) is Some {
                let k = named(self.listed(), name@, 0)->0;
                crate::text::lemma_before_is_strict(name@, name@);
                if k > at {
                    assert(self.listed()[at as int].0 == self.entries@[at as int].name@);
                    assert(text_before(self.listed()[at as int].0, self.listed()[k].0));
                }
                assert(k == at);
                assert(self.listed()[at as int].0 == self.entries@[at as int].name@);
            }
        }
        None
    }

    pub fn contains_key(&self, name: &str) -> (r: bool)
        requires
            self.valid(),
        ensures
            r == self@.contains_key(name@),
    {
        self.get(name).is_some()
    }

    /// Sets a cookie, in place of one with its name.
    pub fn insert(&mut self, name: String, value: String)
        requires
            old(self).valid(),
        ensures
            final(self).valid(),
            final(self)@ == old(self)@.insert(name@, value@),
    {
        let ghost before = self.listed();
        let ghost pair = (name@, value@);
        let at: usize = self.place(name.as_str());
        let present: bool = at < self.entries.len() && same_text(
            self.entries[at].name.as_str(),
            name.as_str(),
        );
        proof {
            crate::text::lemma_before_is_strict(name@, name@);
        }
        if present {
            assert(before[at as int].0 == self.entries@[at as int].name@);
            self.entries.set(at, Cookie { name, value });
            proof {
                let after = self.listed();
                assert(after =~= before.update(at as int, pair));
                assert forall|i: int|
                    0 <= i < before.len() && (#[trigger] before[i]).0 != pair.0 implies after.contains(
                    before[i],
                ) by {
                    assert(after[i] == before[i]);
                }
                assert forall|i: int|
                    0 <= i < after.len() && (#[trigger] after[i]).0 != pair.0 implies before.contains(
                    after[i],
                ) by {
                    assert(after[i] == before[i]);
                }
                assert(after[at as int] == pair);
                lemma_map_change(before, after, pair.0, Some(pair.1));
            }
        } else {
            proof {
                if at < before.len() {
                    assert(before[at as int].0 == self.entries@[at as int].name@);
                }
            }
            self.entries.insert(at, Cookie { name, value });
            proof {
                let after = self.listed();
                assert(after =~= before.insert(at as int, pair));
                assert forall|i: int, j: int| 0 <= i < j < after.len() implies text_before(
                    (#[trigger] after[i]).0,
                    (#[trigger] after[j]).0,
                ) by {
                    let pi = if i < at {
                        i
                    } else {
                        i - 1
                    };
                    let pj = if j < at {
                        j
                    } else {
                        j - 1
                    };
                    if j == at {
                        assert(after[i] == before[i]);
                    } else if i == at {
                        assert(after[j] == before[j - 1]);
                        crate::text::lemma_before_is_total(before[at as int].0, pair.0);
                        if j - 1 > at {
                            assert(text_before(before[at as int].0, before[j - 1].0));
                            crate::text::lemma_before_is_transitive(
                                pair.0,
                                before[at as int].0,
                                before[j - 1].0,
                            );
                        }
                    } else {
                        assert(after[i] == before[pi] && after[j] == before[pj]);
                    }
                }
                assert forall|i: int|
                    0 <= i < before.len() && (#[trigger] before[i]).0 != pair.0 implies after.contains(
                    before[i],
                ) by {
                    assert(after[if i < at {
                        i
                    } else {
                        i + 1
                    }] == before[i]);
                }
                assert forall|i: int|
                    0 <= i < after.len() && (#[trigger] after[i]).0 != pair.0 implies before.contains(
                    after[i],
                ) by {
                    assert(before[if i < at {
                        i
                    } else {
                        i - 1
                    }] == after[i]);
                }
                assert(after[at as int] == pair);
                lemma_map_change(before, after, pair.0, Some(pair.1));
            }
        }
    }

    /// Takes a cookie out.
    pub fn remove(&mut self, name: &str)
        requires
            old(self).valid(),
        ensures
            final(self).valid(),
            final(self)@ == old(self)@.remove(name@),
    {
        let ghost before = self.listed();
        let at: usize = self.place(name);
        let present: bool = at < self.entries.len() && same_text(
            self.entries[at].name.as_str(),
            name,
        );
        proof {
            crate::text::lemma_before_is_strict(name@, name@);
        }
        if present {
            assert(before[at as int].0 == self.entries@[at as int].name@);
            self.entries.remove(at);
            proof {
                let after = self.listed();
                assert(after =~= before.remove(at as int));
                assert forall|i: int|
                    0 <= i < before.len() && (#[trigger] before[i]).0 != name@ implies after.contains(
                    before[i],
                ) by {
                    assert(after[if i < at {
                        i
                    } else {
                        i - 1
                    }] == before[i]);
                }
                assert forall|i: int| 0 <= i < after.len() implies (#[trigger] after[i]).0 != name@
                    && before.contains(after[i]) by {
                    let k = if i < at {
                        i
                    } else {
                        i + 1
                    };
                    assert(before[k] == after[i]);
                    if k < at {
                        crate::text::lemma_before_is_strict(before[k].0, name@);
                    } else {
                        assert(text_before(before[at as int].0, before[k].0));
                        crate::text::lemma_before_is_strict(before[at as int].0, before[k].0);
                    }
                }
                lemma_map_change(before, after, name@, None);
            }
        } else {
            proof {
                assert forall|i: int| 0 <= i < before.len() implies (#[trigger] before[i]).0
                    != name@ by {
                    if before[i].0 == name@ {
                        if i > at {
                            assert(text_before(before[at as int].0, before[i].0));
                        }
                        assert(i == at);
                        assert(before[at as int].0 == self.entries@[at as int].name@);
                    }
                }
                lemma_map_change(before, before, name@, None);
            }
        }
    }
}

/// What is kept of the session between runs.
#[derive(Debug)]
pub struct ModernSession {
    pub guid: Option<String>,
    pub client_auth_token: Option<String>,
    pub provider_isp_id: Option<u64>,
    pub provider_hash: Option<String>,
    pub cookies: CookieJar,
    pub saved_at: Option<String>,
    pub expires_at: Option<String>,
}

impl Default for ModernSession {
    fn default() -> (r: ModernSession)
        ensures
            r.guid is None,
            r.client_auth_token is None,
            r.provider_isp_id is None,
            r.provider_hash is None,
            r.cookies.valid(),
            r.cookies.listed() == Seq::<CookiePair>::empty(),
            r.cookies@ == Map::<Seq<char>, Seq<char>>::empty(),
            r.saved_at is None,
            r.expires_at is None,
    {
        ModernSession {
            guid: None,
            client_auth_token: None,
            provider_isp_id: None,
            provider_hash: None,
            cookies: CookieJar::new(),
            saved_at: None,
            expires_at: None,
        }
    }
}

/// The cookies as a request carries them: `name=value`, with `; ` between them.
pub open spec fn cookie_header(entries: Seq<CookiePair>) -> Seq<char>
    decreases entries.len(),
{
    if entries.len() == 0 {
        Seq::empty()
    } else {
        let last = entries.last();
        let pair = last.0.push('=') + last.1;
        if entries.len() == 1 {
            pair
        } else {
            cookie_header(entries.drop_last()) + seq![';', ' '] + pair
        }
    }
}

/// What a `Set-Cookie` line says of a cookie.
pub struct CookieLine {
    pub name: Seq<char>,
    pub value: Seq<char>,
    pub expired: bool,
    pub expires_at: Option<Seq<char>>,
}

/// Whether an attribute ends the cookie: a `Max-Age` that is a number and not above zero.
pub open spec fn ends_cookie(attribute: Seq<char>) -> bool {
    let text = trimmed(attribute);
    match first_index(text, '=', 0) {
        Some(at) => same_but_case(text.take(at), "max-age"@) && (match parsed_signed(
            trimmed(text.skip(at + 1)),
        ) {
            Some(age) => age <= 0,
            None => false,
        }),
        None => false,
    }
}

/// The date of an `Expires` attribute.
pub open spec fn expiry_date(attribute: Seq<char>) -> Option<Seq<char>> {
    let text = trimmed(attribute);
    match first_index(text, '=', 0) {
        Some(at) => if same_but_case(text.take(at), "expires"@) {
            Some(trimmed(text.skip(at + 1)))
        } else {
            None
        },
        None => None,
    }
}

/// The last `Expires` date among the attributes `1..upto`.
pub open spec fn last_expiry(parts: Seq<Seq<char>>, upto: int) -> Option<Seq<char>>
    decreases upto,
{
    if upto <= 1 {
        None
    } else if expiry_date(parts[upto - 1]) is Some {
        expiry_date(parts[upto - 1])
    } else {
        last_expiry(parts, upto - 1)
    }
}

/// Whether one of the attributes `1..upto` ends the cookie.
pub open spec fn some_ends(parts: Seq<Seq<char>>, upto: int) -> bool {
    exists|i: int| 1 <= i < upto && #[trigger] ends_cookie(parts[i])
}

/// Reads a `Set-Cookie` line: `name=value`, then attributes, with semicolons between them. Nothing
/// where there is no name.
pub open spec fn cookie_line(line: Seq<char>) -> Option<CookieLine> {
    let parts = pieces(line, ';');
    let first = parts[0];
    match first_index(first, '=', 0) {
        Some(at) => {
            let name = trimmed(first.take(at));
            if name.len() == 0 {
                None
            } else {
                Some(
                    CookieLine {
                        name,
                        value: trimmed(first.skip(at + 1)),
                        expired: some_ends(parts, parts.len() as int),
                        expires_at: last_expiry(parts, parts.len() as int),
                    },
                )
            }
        },
        None => None,
    }
}

/// A text cut at the first occurrence of `sep`.
fn split_once(text: &str, sep: char) -> (r: Option<(String, String)>)
    ensures
        match r {
            Some((head, tail)) => {
                &&& first_index(text@, sep, 0) is Some
                &&& head@ == text@.take(first_index(text@, sep, 0)->0)
                &&& tail@ == text@.skip(first_index(text@, sep, 0)->0 + 1)
            },
            None => first_index(text@, sep, 0) is None,
        },
{
    let chars = to_chars(text);
    match find_char(&chars, sep, 0) {
        Some(at) => {
            let head = from_chars(&chars, 0, at);
            let tail = from_chars(&chars, at + 1, chars.len());
            assert(head@ =~= text@.take(at as int));
            assert(tail@ =~= text@.skip(at + 1));
            Some((head, tail))
        },
        None => None,
    }
}

fn attribute_ends_cookie(attribute: &str) -> (r: bool)
    ensures
        r == ends_cookie(attribute@),
{
    let text = trim(attribute);
    match split_once(text.as_str(), '=') {
        Some((name, value)) => {
            let age_text = trim(value.as_str());
            let ended: bool = match parse_signed(age_text.as_str()) {
                Some(age) => age <= 0,
                None => false,
            };
            eq_ignore_case(name.as_str(), "max-age") && ended
        },
        None => false,
    }
}

fn attribute_expiry(attribute: &str) -> (r: Option<String>)
    ensures
        match r {
            Some(date) => expiry_date(attribute@) == Some(date@),
            None => expiry_date(attribute@) is None,
        },
{
    let text = trim(attribute);
    match split_once(text.as_str(), '=') {
        Some((name, value)) => if eq_ignore_case(name.as_str(), "expires") {
            Some(trim(value.as_str()))
        } else {
            None
        },
        None => None,
    }
}

impl ModernSession {
    /// The header that carries the cookies, if there are any.
    pub fn cookie_header_value(&self) -> (r: Option<String>)
        ensures
            match r {
                Some(header) => self.cookies.listed().len() > 0 && header@ == cookie_header(
                    self.cookies.listed(),
                ),
                None => self.cookies.listed().len() == 0,
            },
    {
        let count: usize = self.cookies.len();
        if count == 0 {
            return None;
        }
        let ghost entries = self.cookies.listed();
        let mut header = String::new();
        let mut i: usize = 0;
        assert(entries.take(0) =~= Seq::<CookiePair>::empty());
        while i < count
            invariant
                count == entries.len(),
                entries == self.cookies.listed(),
                i <= count,
                header@ == cookie_header(entries.take(i as int)),
            decreases count - i,
        {
            let cookie = self.cookies.entry(i);
            let ghost before = header@;
            if i > 0 {
                header.push(';');
                header.push(' ');
            }
            header.append(cookie.name.as_str());
            header.push('=');
            header.append(cookie.value.as_str());
            proof {
                let upto = entries.take(i + 1);
                let pair = cookie.name@.push('=') + cookie.value@;
                assert(upto.drop_last() =~= entries.take(i as int));
                assert(upto.last() == entries[i as int]);
                if i > 0 {
                    assert(header@ =~= before + seq![';', ' '] + pair);
                } else {
                    assert(header@ =~= pair);
                }
            }
            i = i + 1;
        }
        assert(entries.take(i as int) =~= entries);
        Some(header)
    }

    /// Takes a `Set-Cookie` line into account: sets its cookie or, if it has expired, takes it out,
    /// and remembers its expiry date.
    pub fn apply_set_cookie_header_line(&mut self, line: &str)
        requires
            old(self).cookies.valid(),
        ensures
            final(self).cookies.valid(),
            final(self).guid == old(self).guid,
            final(self).client_auth_token == old(self).client_auth_token,
            final(self).provider_isp_id == old(self).provider_isp_id,
            final(self).provider_hash == old(self).provider_hash,
            final(self).saved_at == old(self).saved_at,
            final(self).cookies@ == after_cookie_line(old(self).cookies@, line@),
            opt_view(final(self).expires_at) == expiry_after(
                opt_view(old(self).expires_at),
                line@,
            ),
            cookie_line(line@) is None ==> *final(self) == *old(self),
    {
        let parts = split(line, ';');
        let ghost views = crate::text::views(parts@);
        assert(views[0] == parts@[0]@);
        let (raw_name, raw_value) = match split_once(parts[0].as_str(), '=') {
            Some(cut) => cut,
            None => {
                return ;
            },
        };
        let name = trim(raw_name.as_str());
        if name.as_str().is_empty() {
            return ;
        }
        let mut expired: bool = false;
        let mut expires_at: Option<String> = None;
        let mut i: usize = 1;
        while i < parts.len()
            invariant
                1 <= i <= parts.len(),
                views == crate::text::views(parts@),
                expired == some_ends(views, i as int),
                match expires_at {
                    Some(date) => last_expiry(views, i as int) == Some(date@),
                    None => last_expiry(views, i as int) is None,
                },
            decreases parts.len() - i,
        {
            assert(views[i as int] == parts@[i as int]@);
            if attribute_ends_cookie(parts[i].as_str()) {
                expired = true;
                assert(ends_cookie(views[i as int]));
            }
            if let Some(date) = attribute_expiry(parts[i].as_str()) {
                expires_at = Some(date);
            }
            i = i + 1;
        }
        if expired {
            self.cookies.remove(name.as_str());
        } else {
            let value = trim(raw_value.as_str());
            self.cookies.insert(name, value);
        }
        if expires_at.is_some() {
            self.expires_at = expires_at;
        }
    }

    /// Notes the time of the last change.
    pub fn touch_saved_at(&mut self)
        ensures
            exists|seconds: u64|
                final(self).saved_at is Some && final(self).saved_at->0@ == #[trigger] decimal(
                    seconds as int,
                ),
            final(self).guid == old(self).guid,
            final(self).client_auth_token == old(self).client_auth_token,
            final(self).provider_isp_id == old(self).provider_isp_id,
            final(self).provider_hash == old(self).provider_hash,
            final(self).cookies == old(self).cookies,
            final(self).expires_at == old(self).expires_at,
    {
        self.touch_saved_at_time(now_seconds());
    }

    /// Notes `seconds` since the Unix epoch as the time of the last change.
    pub fn touch_saved_at_time(&mut self, seconds: u64)
        ensures
            final(self).saved_at is Some,
            final(self).saved_at->0@ == decimal(seconds as int),
            final(self).guid == old(self).guid,
            final(self).client_auth_token == old(self).client_auth_token,
            final(self).provider_isp_id == old(self).provider_isp_id,
            final(self).provider_hash == old(self).provider_hash,
            final(self).cookies == old(self).cookies,
            final(self).expires_at == old(self).expires_at,
    {
        self.saved_at = Some(to_decimal(seconds));
    }
}

/// The cookies after a `Set-Cookie` line.
pub open spec fn after_cookie_line(
    cookies: Map<Seq<char>, Seq<char>>,
    line: Seq<char>,
) -> Map<Seq<char>, Seq<char>> {
    match cookie_line(line) {
        Some(cookie) => if cookie.expired {
            cookies.remove(cookie.name)
        } else {
            cookies.insert(cookie.name, cookie.value)
        },
        None => cookies,
    }
}

/// The date of expiry after a `Set-Cookie` line.
pub open spec fn expiry_after(expiry: Option<Seq<char>>, line: Seq<char>) -> Option<Seq<char>> {
    match cookie_line(line) {
        Some(cookie) => if cookie.expires_at is Some {
            cookie.expires_at
        } else {
            expiry
        },
        None => expiry,
    }
}

/// A cookie that a line sets is there afterwards; one that a line ends is not. No other cookie
/// changes, and none at all where the line names none.
pub proof fn set_cookie_touches_one_name(
    before: Map<Seq<char>, Seq<char>>,
    line: Seq<char>,
    other: Seq<char>,
)
    requires
        cookie_line(line) matches Some(cookie) ==> other != cookie.name,
    ensures
        ({
            let after = after_cookie_line(before, line);
            &&& cookie_line(line) matches Some(cookie) ==> if cookie.expired {
                !after.contains_key(cookie.name)
            } else {
                after.contains_key(cookie.name) && after[cookie.name] == cookie.value
            }
            &&& cookie_line(line) is None ==> after == before
            &&& after.contains_key(other) == before.contains_key(other)
            &&& before.contains_key(other) ==> after[other] == before[other]
        }),
{
}

/// A line `name=value` sets that cookie, and the attribute `Max-Age` decides whether it stays.
pub proof fn lines_set_the_cookie_they_name(
    before: Map<Seq<char>, Seq<char>>,
    name: Seq<char>,
    value: Seq<char>,
)
    requires
        name.len() > 0,
        trimmed(name) == name,
        trimmed(value) == value,
        !name.contains('='),
        !name.contains(';'),
        !value.contains(';'),
    ensures
        after_cookie_line(before, name + seq!['='] + value).contains_key(name),
        after_cookie_line(before, name + seq!['='] + value)[name] == value,
        cookie_line(name + seq!['='] + value) matches Some(cookie) && cookie.name == name
            && cookie.value == value && !cookie.expired && cookie.expires_at is None,
{
    let line = name + seq!['='] + value;
    let at = name.len() as int;
    assert(!line.contains(';')) by {
        if line.contains(';') {
            let k = choose|k: int| 0 <= k < line.len() && line[k] == ';';
            if k < at {
                assert(name[k] == ';');
            } else if k > at {
                assert(value[k - at - 1] == ';');
            }
        }
    }
    the_first_place_is_the_first(line, ';', 0);
    if first_index(line, ';', 0) is Some {
        assert(line.contains(line[first_index(line, ';', 0)->0]));
    }
    assert(pieces(line, ';') == seq![line]);
    the_first_place_is_the_first(line, '=', 0);
    assert(line[at] == '=');
    let found = first_index(line, '=', 0)->0;
    if found < at {
        assert(name[found] == '=');
    }
    assert(line.take(at) =~= name);
    assert(line.skip(at + 1) =~= value);
}

/// An age of zero or less ends a cookie, and a greater one does not, however the attribute is
/// written.
pub proof fn ages_end_cookies(attribute: Seq<char>, text: Seq<char>, at: int, age: int)
    requires
        text == trimmed(attribute),
        first_index(text, '=', 0) == Some(at),
        lowered(text.take(at)) == lowered("max-age"@),
        parsed_signed(trimmed(text.skip(at + 1))) == Some(age),
    ensures
        ends_cookie(attribute) <==> age <= 0,
{
}

/// The cookies of a request are the pairs of all cookies, in their order.
pub proof fn requests_carry_every_cookie(entries: Seq<CookiePair>, next: CookiePair)
    ensures
        cookie_header(seq![next]) == next.0 + seq!['='] + next.1,
        entries.len() > 0 ==> cookie_header(entries.push(next)) == cookie_header(entries) + seq![
            ';',
            ' ',
        ] + next.0 + seq!['='] + next.1,
{
    assert(seq![next].last() == next);
    assert(next.0.push('=') + next.1 =~= next.0 + seq!['='] + next.1);
    assert(entries.push(next).drop_last() =~= entries);
    if entries.len() > 0 {
        assert(cookie_header(entries.push(next)) =~= cookie_header(entries) + seq![';', ' ']
            + next.0 + seq!['='] + next.1);
    }
}

/// The id of a session that was made here: the time and the process that made it.
pub open spec fn session_guid(seconds: u64, nanos: u32, process_id: u32) -> Seq<char> {
    "speedtest-rs-"@ + hexadecimal(seconds as int) + seq!['-'] + hex_digits(nanos as int, 8) + seq![
        '-',
    ] + decimal(process_id as int)
}

/// The id of a session of the given time and process.
pub fn build_session_guid(seconds: u64, nanos: u32, process_id: u32) -> (r: String)
    ensures
        r@ == session_guid(seconds, nanos, process_id),
{
    let mut out = String::new();
    out.append("speedtest-rs-");
    out.append(to_hexadecimal(seconds as u128).as_str());
    out.push('-');
    out.append(to_hex_digits(nanos as u64, 8).as_str());
    out.push('-');
    out.append(to_decimal(process_id as u64).as_str());
    assert(out@ =~= session_guid(seconds, nanos, process_id));
    out
}

/// A new session id for the given process.
pub fn generate_session_guid(process_id: u32) -> (r: String)
    ensures
        exists|seconds: u64, nanos: u32|
            nanos < 1_000_000_000 && r@ == #[trigger] session_guid(seconds, nanos, process_id),
{
    let seconds: u64 = now_seconds();
    let nanos: u32 = now_subsec_nanos();
    build_session_guid(seconds, nanos, process_id)
}

/// An attribute that is called `expires`, in whatever case, sets the expiry, and no other one does.
/// The last one counts.
pub proof fn expiries_are_read_from_their_attribute(
    attribute: Seq<char>,
    text: Seq<char>,
    at: int,
    parts: Seq<Seq<char>>,
)
    requires
        text == trimmed(attribute),
        first_index(text, '=', 0) == Some(at),
        parts.len() > 0,
    ensures
        lowered(text.take(at)) == lowered("expires"@) ==> last_expiry(
            parts.push(attribute),
            parts.len() as int + 1,
        ) == Some(trimmed(text.skip(at + 1))),
        lowered(text.take(at)) != lowered("expires"@) ==> last_expiry(
            parts.push(attribute),
            parts.len() as int + 1,
        ) == last_expiry(parts, parts.len() as int),
{
    lemma_last_expiry(parts, attribute, parts.len() as int);
    assert(parts.push(attribute)[parts.len() as int] == attribute);
}

proof fn lemma_last_expiry(parts: Seq<Seq<char>>, next: Seq<char>, upto: int)
    requires
        upto <= parts.len(),
    ensures
        last_expiry(parts.push(next), upto) == last_expiry(parts, upto),
    decreases upto,
{
    if upto > 1 {
        assert(parts.push(next)[upto - 1] == parts[upto - 1]);
        lemma_last_expiry(parts, next, upto - 1);
    }
}

/// A cookie has the value that its entry holds, and there is none without an entry.
pub proof fn cookies_have_the_value_of_their_entry(entries: Seq<CookiePair>, i: int)
    requires
        0 <= i < entries.len(),
        forall|k: int| 0 <= k < i ==> (#[trigger] entries[k]).0 != entries[i].0,
    ensures
        cookie_map(entries).contains_key(entries[i].0),
        cookie_map(entries)[entries[i].0] == entries[i].1,
        forall|name: Seq<char>| #[trigger]
            cookie_map(entries).contains_key(name) ==> exists|k: int|
                0 <= k < entries.len() && (#[trigger] entries[k]).0 == name,
{
    lemma_first_named(entries, i, 0);
    assert forall|name: Seq<char>| #[trigger] cookie_map(entries).contains_key(name) implies exists|
        k: int,
    |
        0 <= k < entries.len() && (#[trigger] entries[k]).0 == name by {
        lemma_some_named(entries, name, 0);
    }
}

proof fn lemma_first_named(entries: Seq<CookiePair>, i: int, from: int)
    requires
        0 <= from <= i < entries.len(),
        forall|k: int| from <= k < i ==> (#[trigger] entries[k]).0 != entries[i].0,
    ensures
        named(entries, entries[i].0, from) == Some(i),
    decreases i - from,
{
    if from < i {
        lemma_first_named(entries, i, from + 1);
    }
}

proof fn lemma_some_named(entries: Seq<CookiePair>, name: Seq<char>, from: int)
    requires
        0 <= from,
    ensures
        named(entries, name, from) is Some ==> exists|k: int|
            0 <= k < entries.len() && (#[trigger] entries[k]).0 == name,
    decreases entries.len() - from,
{
    if from < entries.len() && entries[from].0 != name {
        lemma_some_named(entries, name, from + 1);
    }
}

/// An attribute that ends the cookie ends it wherever it stands behind the first part, and without
/// one the cookie stays.
pub proof fn any_attribute_can_end_a_cookie(parts: Seq<Seq<char>>, i: int)
    requires
        0 < i < parts.len(),
    ensures
        ends_cookie(parts[i]) ==> some_ends(parts, parts.len() as int),
        (forall|k: int| 0 < k < parts.len() ==> !ends_cookie(#[trigger] parts[k])) ==> !some_ends(
            parts,
            parts.len() as int,
        ),
{
}

} // verus!
