//! What ingress and dashboard read of an HTTP message.

use vstd::prelude::*;
use vstd::utf8::encode_utf8;

use crate::text::{first_at, lower_text, opt_text, same_text, text_pairs, to_lower};

verus! {

/// A header field. Names are in lower case.
#[derive(Debug, Clone, PartialEq, Eq)]
pub struct HeaderField {
    pub name: String,
    pub value: Vec<u8>,
}

/// The header fields of a message, in order.
#[derive(Debug, Clone, PartialEq, Eq)]
pub struct Headers {
    pub fields: Vec<HeaderField>,
}

/// The names and values of a list of fields.
pub open spec fn field_views(fields: Seq<HeaderField>) -> Seq<(Seq<char>, Seq<u8>)> {
    Seq::new(fields.len(), |i: int| (fields[i].name@, fields[i].value@))
}

impl View for Headers {
    type V = Seq<(Seq<char>, Seq<u8>)>;

    open spec fn view(&self) -> Seq<(Seq<char>, Seq<u8>)> {
        field_views(self.fields@)
    }
}

/// The value of the first field with a name, from `from` on.
pub open spec fn value_from(fields: Seq<(Seq<char>, Seq<u8>)>, name: Seq<char>, from: int) -> Option<
    Seq<u8>,
>
    decreases fields.len() - from,
{
    if from < 0 || from >= fields.len() {
        None
    } else if fields[from].0 == name {
        Some(fields[from].1)
    } else {
        value_from(fields, name, from + 1)
    }
}

/// The fields whose name is another one.
pub open spec fn fields_without(fields: Seq<(Seq<char>, Seq<u8>)>, name: Seq<char>) -> Seq<
    (Seq<char>, Seq<u8>),
> {
    fields.filter(|f: (Seq<char>, Seq<u8>)| f.0 != name)
}

/// A byte that the text of a header value may hold: printable ASCII or a tab.
pub open spec fn visible(b: u8) -> bool {
    (32 <= b && b < 127) || b == 9
}

/// The text of a header value, where all its bytes are visible.
pub open spec fn value_text(value: Seq<u8>) -> Option<Seq<char>> {
    if forall|i: int| 0 <= i < value.len() ==> visible(#[trigger] value[i]) {
        Some(Seq::new(value.len(), |i: int| value[i] as char))
    } else {
        None
    }
}

/// The text of the first header field with a name.
pub open spec fn field_text(fields: Seq<(Seq<char>, Seq<u8>)>, name: Seq<char>) -> Option<Seq<char>> {
    match value_from(fields, name, 0) {
        Some(value) => value_text(value),
        None => None,
    }
}

/// Reads a header value as text.
pub fn to_text(value: &[u8]) -> (r: Option<String>)
    ensures
        match r {
            Some(t) => value_text(value@) == Some(t@),
            None => value_text(value@) is None,
        },
{
    let mut text = String::new();
    let ghost all = Seq::new(value@.len(), |i: int| value@[i] as char);
    proof {
        assert(text@ =~= all.take(0));
    }
    let mut i: usize = 0;
    while i < value.len()
        invariant
            i <= value@.len(),
            all == Seq::new(value@.len(), |i: int| value@[i] as char),
            forall|j: int| 0 <= j < i ==> visible(#[trigger] value@[j]),
            text@ == all.take(i as int),
        decreases value@.len() - i,
    {
        let b: u8 = value[i];
        if !((b >= 32 && b < 127) || b == 9) {
            proof {
                assert(!visible(value@[i as int]));
            }
            return None;
        }
        text.push(b as char);
        proof {
            assert(text@ =~= all.take(i + 1));
        }
        i += 1;
    }
    proof {
        assert(all.take(i as int) =~= all);
    }
    Some(text)
}

impl Headers {
    /// No header fields.
    pub fn new() -> (r: Headers)
        ensures
            r@.len() == 0,
    {
        Headers { fields: Vec::new() }
    }

    /// Adds a field behind the others; its name is put in lower case.
    pub fn append(&mut self, name: &str, value: Vec<u8>)
        ensures
            final(self)@ == old(self)@.push((lower_text(name@), value@)),
    {
        let ghost before = self@;
        self.fields.push(HeaderField { name: to_lower(name), value });
        proof {
            assert(self@ =~= before.push((lower_text(name@), value@)));
        }
    }

    /// The value of the first field with a name in lower case.
    pub fn get(&self, name: &str) -> (r: Option<&Vec<u8>>)
        ensures
            match r {
                Some(v) => value_from(self@, name@, 0) == Some(v@),
                None => value_from(self@, name@, 0) is None,
            },
    {
        let mut i: usize = 0;
        while i < self.fields.len()
            invariant
                i <= self.fields@.len(),
                value_from(self@, name@, 0) == value_from(self@, name@, i as int),
            decreases self.fields@.len() - i,
        {
            let field = &self.fields[i];
            proof {
                assert(self@[i as int] == (field.name@, field.value@));
            }
            if same_text(field.name.as_str(), name) {
                return Some(&field.value);
            }
            i += 1;
        }
        None
    }

    /// The text of the first field with a name in lower case.
    pub fn get_text(&self, name: &str) -> (r: Option<String>)
        ensures
            match r {
                Some(t) => field_text(self@, name@) == Some(t@),
                None => field_text(self@, name@) is None,
            },
    {
        match self.get(name) {
            Some(value) => to_text(value.as_slice()),
            None => None,
        }
    }

    /// Removes every field with a name in lower case.
    pub fn remove(&mut self, name: &str)
        ensures
            final(self)@ == fields_without(old(self)@, name@),
    {
        let ghost before = self@;
        let mut old_fields: Vec<HeaderField> = Vec::new();
        core::mem::swap(&mut old_fields, &mut self.fields);
        let mut kept: Vec<HeaderField> = Vec::new();
        let ghost p = |f: (Seq<char>, Seq<u8>)| f.0 != name@;
        let mut i: usize = 0;
        proof {
            reveal(Seq::filter);
            assert(before.take(0) =~= Seq::empty());
            assert(field_views(kept@) =~= before.take(0).filter(p));
        }
        while i < old_fields.len()
            invariant
                i <= old_fields@.len(),
                before == field_views(old_fields@),
                p == (|f: (Seq<char>, Seq<u8>)| f.0 != name@),
                field_views(kept@) == before.take(i as int).filter(p),
            decreases old_fields@.len() - i,
        {
            let ghost sofar = kept@;
            let field = &old_fields[i];
            proof {
                reveal(Seq::filter);
                assert(before.take(i + 1).drop_last() =~= before.take(i as int));
                assert(before.take(i + 1).last() == (field.name@, field.value@));
            }
            if !same_text(field.name.as_str(), name) {
                let copy = HeaderField { name: field.name.clone(), value: copy_bytes(&field.value) };
                kept.push(copy);
                proof {
                    assert(field_views(kept@) =~= field_views(sofar).push(
                        (field.name@, field.value@),
                    ));
                }
            }
            i += 1;
        }
        proof {
            assert(before.take(i as int) =~= before);
        }
        self.fields = kept;
    }

    /// Sets the only field with a name in lower case.
    pub fn set(&mut self, name: &str, value: Vec<u8>)
        ensures
            final(self)@ == fields_without(old(self)@, name@).push((name@, value@)),
    {
        self.remove(name);
        let ghost before = self@;
        self.fields.push(HeaderField { name: name.to_owned(), value });
        proof {
            assert(self@ =~= before.push((name@, value@)));
        }
    }
}

/// Copies a byte string.
pub fn copy_bytes(bytes: &Vec<u8>) -> (r: Vec<u8>)
    ensures
        r@ == bytes@,
{
    let r = vstd::slice::slice_to_vec(bytes.as_slice());
    proof {
        assert(r@ =~= bytes@);
    }
    r
}

/// Whether a text starts with another.
pub open spec fn text_starts_with(s: Seq<char>, prefix: Seq<char>) -> bool {
    s.len() >= prefix.len() && s.take(prefix.len() as int) == prefix
}

/// Whether a text starts with another.
pub fn starts_with(s: &str, prefix: &str) -> (r: bool)
    ensures
        r == text_starts_with(s@, prefix@),
{
    let n: usize = prefix.unicode_len();
    if s.unicode_len() < n {
        return false;
    }
    let head = s.substring_char(0, n);
    proof {
        assert(head@ =~= s@.take(n as int));
    }
    same_text(head, prefix)
}

/// Whether a text stands somewhere in another.
pub open spec fn text_contains(s: Seq<char>, part: Seq<char>) -> bool {
    exists|i: int|
        0 <= i <= s.len() - part.len() && #[trigger] s.subrange(i, i + part.len()) == part
}

/// Whether a text stands somewhere in another.
pub fn contains(s: &str, part: &str) -> (r: bool)
    ensures
        r == text_contains(s@, part@),
{
    let n: usize = s.unicode_len();
    let m: usize = part.unicode_len();
    if n < m {
        return false;
    }
    let mut i: usize = 0;
    while i <= n - m
        invariant
            n == s@.len(),
            m == part@.len(),
            m <= n,
            i <= n - m + 1,
            n < usize::MAX || m > 0 || i <= n,
            forall|j: int| 0 <= j < i ==> #[trigger] s@.subrange(j, j + m) != part@,
        decreases n - i + 1,
    {
        if same_text(s.substring_char(i, i + m), part) {
            proof {
                assert(s@.subrange(i as int, i + m) == part@);
            }
            return true;
        }
        if i == n - m {
            return false;
        }
        i += 1;
    }
    false
}

/// A character around which header values are trimmed.
pub open spec fn blank(c: char) -> bool {
    c == ' ' || c == '\t'
}

/// A text without blanks at its start.
pub open spec fn trim_start(s: Seq<char>) -> Seq<char>
    decreases s.len(),
{
    if s.len() > 0 && blank(s[0]) {
        trim_start(s.skip(1))
    } else {
        s
    }
}

/// A text without blanks at its end.
pub open spec fn trim_end(s: Seq<char>) -> Seq<char>
    decreases s.len(),
{
    if s.len() > 0 && blank(s.last()) {
        trim_end(s.drop_last())
    } else {
        s
    }
}

/// A text without blanks around it.
pub open spec fn trimmed(s: Seq<char>) -> Seq<char> {
    trim_end(trim_start(s))
}

/// Takes blanks off both ends of a text.
pub fn trim<'a>(s: &'a str) -> (r: &'a str)
    ensures
        r@ == trimmed(s@),
{
    let n: usize = s.unicode_len();
    let mut from: usize = 0;
    proof {
        assert(s@.skip(0) =~= s@);
    }
    while from < n && (s.get_char(from) == ' ' || s.get_char(from) == '\t')
        invariant
            n == s@.len(),
            from <= n,
            trim_start(s@) == trim_start(s@.skip(from as int)),
        decreases n - from,
    {
        proof {
            assert(s@.skip(from as int).skip(1) =~= s@.skip(from + 1));
        }
        from += 1;
    }
    let ghost rest = s@.skip(from as int);
    proof {
        assert(trim_start(s@) == rest);
        assert(s@.subrange(from as int, n as int) =~= rest);
    }
    let mut to: usize = n;
    while to > from && (s.get_char(to - 1) == ' ' || s.get_char(to - 1) == '\t')
        invariant
            n == s@.len(),
            from <= to <= n,
            trim_end(rest) == trim_end(s@.subrange(from as int, to as int)),
        decreases to - from,
    {
        proof {
            assert(s@.subrange(from as int, to as int).drop_last() =~= s@.subrange(
                from as int,
                to - 1,
            ));
        }
        to -= 1;
    }
    s.substring_char(from, to)
}

/// The parts of a text between occurrences of `c`.
pub open spec fn parts_of(s: Seq<char>, c: char) -> Seq<Seq<char>>
    decreases s.len(),
    via parts_of_decreases
{
    match first_at(s, c, 0) {
        Some(i) => seq![s.take(i)] + parts_of(s.skip(i + 1), c),
        None => seq![s],
    }
}

#[via_fn]
proof fn parts_of_decreases(s: Seq<char>, c: char) {
    crate::text::lemma_first_at(s, c, 0);
}

/// Splits a text at every `c`.
pub fn split_all<'a>(s: &'a str, c: char) -> (r: Vec<&'a str>)
    ensures
        str_views(r@) == parts_of(s@, c),
{
    let n: usize = s.unicode_len();
    let mut parts: Vec<&'a str> = Vec::new();
    let mut rest: &'a str = s;
    proof {
        assert(str_views(parts@) + parts_of(s@, c) =~= parts_of(s@, c));
    }
    loop
        invariant
            str_views(parts@) + parts_of(rest@, c) == parts_of(s@, c),
        decreases rest@.len(),
    {
        let ghost before = parts@;
        match crate::text::split_once(rest, c) {
            Some((head, tail)) => {
                parts.push(head);
                proof {
                    crate::text::lemma_first_at(rest@, c, 0);
                    assert(str_views(parts@) =~= str_views(before).push(head@));
                    assert(str_views(before) + (seq![head@] + parts_of(tail@, c)) =~= str_views(
                        before,
                    ).push(head@) + parts_of(tail@, c));
                }
                rest = tail;
            },
            None => {
                parts.push(rest);
                proof {
                    assert(str_views(parts@) =~= str_views(before) + seq![rest@]);
                }
                return parts;
            },
        }
    }
}

/// The characters of each of a list of texts.
pub open spec fn str_views<'a>(list: Seq<&'a str>) -> Seq<Seq<char>> {
    Seq::new(list.len(), |i: int| list[i]@)
}

/// Whether a byte may stand in a token, such as a method or the name of a header field: a
/// digit, a letter or one of fifteen signs.
pub open spec fn token_byte(b: u8) -> bool {
    (48 <= b <= 57) || (65 <= b <= 90) || (97 <= b <= 122) || b == 33 || (35 <= b <= 39) || b == 42
        || b == 43 || b == 45 || b == 46 || (94 <= b <= 96) || b == 124 || b == 126
}

/// Whether a text can be the name of a header field: token bytes, at least one and fewer than
/// 65536.
pub open spec fn field_name(text: Seq<char>) -> bool {
    let bytes = encode_utf8(text);
    0 < bytes.len() <= 65535 && forall|i: int|
        0 <= i < bytes.len() ==> token_byte(#[trigger] bytes[i])
}

/// Whether a text can be the value of a header field: no control bytes but tabs.
pub open spec fn field_value(text: Seq<char>) -> bool {
    let bytes = encode_utf8(text);
    forall|i: int|
        0 <= i < bytes.len() ==> ((#[trigger] bytes[i]) >= 32 && bytes[i] != 127) || bytes[i] == 9
}

/// Whether a pair of texts can be a header field.
pub open spec fn usable_field(pair: (Seq<char>, Seq<char>)) -> bool {
    field_name(pair.0) && field_value(pair.1)
}

/// Whether `http::HeaderName::from_bytes` accepts a text, which is where [`field_name`] holds.
#[verifier::external_body]
fn is_field_name(text: &str) -> (r: bool)
    ensures
        r == field_name(text@),
{
    http::HeaderName::from_bytes(text.as_bytes()).is_ok()
}

/// Whether `http::HeaderValue::from_str` accepts a text, which is where [`field_value`] holds.
#[verifier::external_body]
fn is_field_value(text: &str) -> (r: bool)
    ensures
        r == field_value(text@),
{
    http::HeaderValue::from_str(text).is_ok()
}

/// Whether each of a list of pairs can be a header field.
pub open spec fn usable_fields(pairs: Seq<(Seq<char>, Seq<char>)>) -> bool {
    forall|i: int| 0 <= i < pairs.len() ==> usable_field(#[trigger] pairs[i])
}

/// Whether each of a list of pairs can be a header field.
pub fn all_usable(pairs: &Vec<(String, String)>) -> (r: bool)
    ensures
        r == usable_fields(text_pairs(pairs@)),
        r == forall|i: int|
            0 <= i < pairs@.len() ==> usable_field(#[trigger] text_pairs(pairs@)[i]),
{
    let mut i: usize = 0;
    while i < pairs.len()
        invariant
            i <= pairs@.len(),
            forall|j: int| 0 <= j < i ==> usable_field(#[trigger] text_pairs(pairs@)[j]),
        decreases pairs@.len() - i,
    {
        let pair = &pairs[i];
        if !(is_field_name(pair.0.as_str()) && is_field_value(pair.1.as_str())) {
            proof {
                assert(!usable_field(text_pairs(pairs@)[i as int]));
            }
            return false;
        }
        i += 1;
    }
    true
}

/// The pairs of a list that can be header fields.
pub fn only_usable(pairs: &Vec<(String, String)>) -> (r: Vec<(String, String)>)
    ensures
        text_pairs(r@) == text_pairs(pairs@).filter(
            |p: (Seq<char>, Seq<char>)| usable_field(p),
        ),
{
    let ghost all = text_pairs(pairs@);
    let ghost p = |p: (Seq<char>, Seq<char>)| usable_field(p);
    let mut kept: Vec<(String, String)> = Vec::new();
    let mut i: usize = 0;
    proof {
        reveal(Seq::filter);
        assert(all.take(0) =~= Seq::empty());
        assert(text_pairs(kept@) =~= all.take(0).filter(p));
    }
    while i < pairs.len()
        invariant
            i <= all.len(),
            all == text_pairs(pairs@),
            p == (|p: (Seq<char>, Seq<char>)| usable_field(p)),
            text_pairs(kept@) == all.take(i as int).filter(p),
        decreases all.len() - i,
    {
        let ghost before = kept@;
        let pair = &pairs[i];
        proof {
            reveal(Seq::filter);
            assert(all.take(i + 1).drop_last() =~= all.take(i as int));
            assert(all.take(i + 1).last() == (pair.0@, pair.1@));
        }
        if is_field_name(pair.0.as_str()) && is_field_value(pair.1.as_str()) {
            kept.push((pair.0.clone(), pair.1.clone()));
            proof {
                assert(text_pairs(kept@) =~= text_pairs(before).push((pair.0@, pair.1@)));
            }
        }
        i += 1;
    }
    proof {
        assert(all.take(i as int) =~= all);
    }
    kept
}

/// What the `http` crate finds wrong with a text as a URI, where it does.
pub uninterp spec fn uri_complaint(text: Seq<char>) -> Option<Seq<char>>;

/// Checks a text as a URI: parses it as a `http::Uri`. The error as its message is
/// [`uri_complaint`].
#[verifier::external_body]
pub(crate) fn check_uri(text: &str) -> (r: Option<String>)
    ensures
        opt_text(r) == uri_complaint(text@),
{
    text.parse::<http::Uri>().err().map(|e| e.to_string())
}

/// A header value is read as text exactly where each byte is a tab or printable ASCII, and each
/// byte is then the character with its number.
pub proof fn law_text_of_a_value_is_its_bytes(value: &[u8], r: Option<String>)
    requires
        call_ensures(to_text, (value,), r),
    ensures
        r is Some <==> forall|i: int|
            0 <= i < value@.len() ==> value@[i] == 9 || 32 <= #[trigger] value@[i] <= 126,
        r matches Some(t) ==> t@.len() == value@.len() && forall|i: int|
            0 <= i < value@.len() ==> (#[trigger] t@[i]) as int == value@[i],
{
}

proof fn lemma_value_from(fields: Seq<(Seq<char>, Seq<u8>)>, name: Seq<char>, from: int, i: int)
    requires
        0 <= from <= i < fields.len(),
        fields[i].0 == name,
        forall|j: int| from <= j < i ==> (#[trigger] fields[j]).0 != name,
    ensures
        value_from(fields, name, from) == Some(fields[i].1),
    decreases i - from,
{
    if from < i {
        lemma_value_from(fields, name, from + 1, i);
    }
}

proof fn lemma_no_value_from(fields: Seq<(Seq<char>, Seq<u8>)>, name: Seq<char>, from: int)
    requires
        0 <= from,
        forall|j: int| from <= j < fields.len() ==> (#[trigger] fields[j]).0 != name,
    ensures
        value_from(fields, name, from) is None,
    decreases fields.len() - from,
{
    if from < fields.len() {
        lemma_no_value_from(fields, name, from + 1);
    }
}

/// The place of the first field with a name, where there is one.
pub proof fn lemma_first_field(headers: &Headers, name: Seq<char>, i: int)
    requires
        0 <= i < headers.fields@.len(),
        headers.fields@[i].name@ == name,
        forall|j: int| 0 <= j < i ==> (#[trigger] headers.fields@[j]).name@ != name,
    ensures
        value_from(headers@, name, 0) == Some(headers.fields@[i].value@),
{
    assert forall|j: int| 0 <= j < i implies (#[trigger] headers@[j]).0 != name by {
        assert(headers.fields@[j].name@ != name);
    }
    lemma_value_from(headers@, name, 0, i);
}

/// Where no field has a name, there is no value.
pub proof fn lemma_missing_field(headers: &Headers, name: Seq<char>)
    requires
        forall|j: int|
            0 <= j < headers.fields@.len() ==> (#[trigger] headers.fields@[j]).name@ != name,
    ensures
        value_from(headers@, name, 0) is None,
{
    assert forall|j: int| 0 <= j < headers@.len() implies (#[trigger] headers@[j]).0 != name by {
        assert(headers.fields@[j].name@ != name);
    }
    lemma_no_value_from(headers@, name, 0);
}

/// Of the fields with a name the first is found, and none where there is none.
pub proof fn law_first_field_is_found(headers: &Headers, name: &str, r: Option<&Vec<u8>>, i: int)
    requires
        call_ensures(Headers::get, (headers, name), r),
    ensures
        0 <= i < headers.fields@.len() && headers.fields@[i].name@ == name@ && (forall|j: int|
            0 <= j < i ==> (#[trigger] headers.fields@[j]).name@ != name@) ==> r is Some && (r->0)@
            == headers.fields@[i].value@,
        (forall|j: int|
            0 <= j < headers.fields@.len() ==> (#[trigger] headers.fields@[j]).name@ != name@)
            ==> r is None,
{
    if 0 <= i < headers.fields@.len() && headers.fields@[i].name@ == name@ && (forall|j: int|
        0 <= j < i ==> (#[trigger] headers.fields@[j]).name@ != name@) {
        lemma_first_field(headers, name@, i);
    }
    if forall|j: int|
        0 <= j < headers.fields@.len() ==> (#[trigger] headers.fields@[j]).name@ != name@ {
        lemma_missing_field(headers, name@);
    }
}

/// The text of a field is that of the value that is found under its name.
pub proof fn law_field_text_is_that_of_its_value(
    headers: &Headers,
    name: &str,
    r: Option<String>,
    value: Option<&Vec<u8>>,
)
    requires
        call_ensures(Headers::get_text, (headers, name), r),
        call_ensures(Headers::get, (headers, name), value),
    ensures
        value is None ==> r is None,
        value matches Some(v) ==> {
            &&& r is Some <==> forall|i: int|
                0 <= i < v@.len() ==> v@[i] == 9 || 32 <= #[trigger] v@[i] <= 126
            &&& r matches Some(t) ==> t@.len() == v@.len() && forall|i: int|
                0 <= i < v@.len() ==> (#[trigger] t@[i]) as int == v@[i]
        },
{
}

/// A field that is added stands behind the others, which stay as they are. Its capital letters
/// are moved up by 32 code points.
pub proof fn law_added_field_stands_last(headers: &mut Headers, name: &str, value: Vec<u8>)
    requires
        call_ensures(Headers::append, (headers, name, value), ()),
    ensures
        ({
            let before = old(headers).fields@;
            let after = final(headers).fields@;
            &&& after.len() == before.len() + 1
            &&& forall|i: int|
                0 <= i < before.len() ==> (#[trigger] after[i]).name@ == before[i].name@
                    && after[i].value@ == before[i].value@
            &&& after.last().value@ == value@
            &&& after.last().name@.len() == name@.len()
            &&& forall|i: int|
                #![trigger after.last().name@[i]]
                0 <= i < name@.len() ==> after.last().name@[i] as int == name@[i] as int + (if 65
                    <= name@[i] as int <= 90 {
                    32int
                } else {
                    0
                })
        }),
{
    let before = old(headers).fields@;
    let after = final(headers).fields@;
    assert(final(headers)@.len() == after.len());
    assert(final(headers)@.last() == (after.last().name@, after.last().value@));
    assert forall|i: int| 0 <= i < before.len() implies (#[trigger] after[i]).name@
        == before[i].name@ && after[i].value@ == before[i].value@ by {
        assert(final(headers)@[i] == old(headers)@[i]);
    }
}

proof fn lemma_value_without(fields: Seq<(Seq<char>, Seq<u8>)>, name: &str, other: Seq<char>)
    requires
        name@ != other,
    ensures
        value_from(fields_without(fields, name@), other, 0) == value_from(fields, other, 0),
        forall|i: int|
            0 <= i < fields_without(fields, name@).len() ==> (#[trigger] fields_without(
                fields,
                name@,
            )[i]).0 != name@,
{
    broadcast use vstd::seq_lib::group_filter_ensures;

    let p = |f: (Seq<char>, Seq<u8>)| f.0 != name@;
    lemma_value_filter(fields, p, other);
    assert(fields_without(fields, name@) == fields.filter(p));
}

/// Leaving out fields with other names changes nothing about the value of a name.
pub proof fn lemma_value_filter(
    fields: Seq<(Seq<char>, Seq<u8>)>,
    p: spec_fn((Seq<char>, Seq<u8>)) -> bool,
    name: Seq<char>,
)
    requires
        forall|f: (Seq<char>, Seq<u8>)| f.0 == name ==> #[trigger] p(f),
    ensures
        value_from(fields.filter(p), name, 0) == value_from(fields, name, 0),
    decreases fields.len(),
{
    reveal(Seq::filter);
    if fields.len() > 0 {
        let front = fields.drop_last();
        lemma_value_filter(front, p, name);
        lemma_value_push(front, fields.last(), name);
        assert(front.push(fields.last()) =~= fields);
        if p(fields.last()) {
            lemma_value_push(front.filter(p), fields.last(), name);
        }
    }
}

/// A field behind the others gives its value only where none of them has its name.
pub proof fn lemma_value_push(
    fields: Seq<(Seq<char>, Seq<u8>)>,
    last: (Seq<char>, Seq<u8>),
    name: Seq<char>,
)
    ensures
        value_from(fields.push(last), name, 0) == (match value_from(fields, name, 0) {
            Some(v) => Some(v),
            None => if last.0 == name {
                Some(last.1)
            } else {
                None
            },
        }),
{
    lemma_value_push_from(fields, last, name, 0);
}

proof fn lemma_value_push_from(
    fields: Seq<(Seq<char>, Seq<u8>)>,
    last: (Seq<char>, Seq<u8>),
    name: Seq<char>,
    from: int,
)
    requires
        0 <= from <= fields.len(),
    ensures
        value_from(fields.push(last), name, from) == (match value_from(fields, name, from) {
            Some(v) => Some(v),
            None => if last.0 == name {
                Some(last.1)
            } else {
                None
            },
        }),
    decreases fields.len() - from,
{
    if from < fields.len() {
        lemma_value_push_from(fields, last, name, from + 1);
    } else {
        assert(value_from(fields.push(last), name, from + 1) is None);
    }
}

/// Where a name is removed, no field has it, and under every other name the same value is found
/// as before.
pub proof fn law_removal_takes_out_one_name(
    headers: &mut Headers,
    name: &str,
    other: &str,
    before: Option<&Vec<u8>>,
    after: Option<&Vec<u8>>,
)
    requires
        call_ensures(Headers::remove, (headers, name), ()),
        name@ != other@,
        call_ensures(Headers::get, (&*old(headers), other), before),
        call_ensures(Headers::get, (&*final(headers), other), after),
    ensures
        forall|i: int|
            0 <= i < final(headers).fields@.len() ==> (#[trigger] final(headers).fields@[i]).name@
                != name@,
        before is Some <==> after is Some,
        before is Some ==> (before->0)@ == (after->0)@,
{
    lemma_value_without(old(headers)@, name, other@);
    let left = final(headers).fields@;
    assert forall|i: int| 0 <= i < left.len() implies (#[trigger] left[i]).name@ != name@ by {
        assert(final(headers)@[i].0 != name@);
    }
}

/// Where a name is set, its value is found under it, and under every other name the same value is
/// found as before.
pub proof fn law_set_value_is_found(
    headers: &mut Headers,
    name: &str,
    value: Vec<u8>,
    asked: &str,
    before: Option<&Vec<u8>>,
    after: Option<&Vec<u8>>,
)
    requires
        call_ensures(Headers::set, (headers, name, value), ()),
        call_ensures(Headers::get, (&*old(headers), asked), before),
        call_ensures(Headers::get, (&*final(headers), asked), after),
    ensures
        asked@ == name@ ==> after is Some && (after->0)@ == value@,
        asked@ != name@ ==> (before is Some <==> after is Some) && (before is Some ==> (before->0)@
            == (after->0)@),
{
    let left = fields_without(old(headers)@, name@);
    lemma_value_push(left, (name@, value@), asked@);
    if asked@ != name@ {
        lemma_value_without(old(headers)@, name, asked@);
    } else {
        let other = name@.push('x');
        assert(other.len() != name@.len());
        lemma_value_without(old(headers)@, name, other);
        lemma_no_value_from(left, name@, 0);
    }
}

/// A text starts with another exactly where it is that text followed by some rest.
pub proof fn law_start_is_followed_by_a_rest(s: &str, prefix: &str, r: bool)
    requires
        call_ensures(starts_with, (s, prefix), r),
    ensures
        r <==> exists|rest: Seq<char>| s@ == #[trigger] (prefix@ + rest),
{
    if r {
        assert(s@ =~= prefix@ + s@.skip(prefix@.len() as int));
    }
    if exists|rest: Seq<char>| s@ == #[trigger] (prefix@ + rest) {
        let rest = choose|rest: Seq<char>| s@ == #[trigger] (prefix@ + rest);
        assert(s@.take(prefix@.len() as int) =~= prefix@);
    }
}

/// A text holds another exactly where it is that text between some others.
pub proof fn law_part_stands_between_others(s: &str, part: &str, r: bool)
    requires
        call_ensures(contains, (s, part), r),
    ensures
        r <==> exists|a: Seq<char>, b: Seq<char>| s@ == #[trigger] (a + part@ + b),
{
    if r {
        let i = choose|i: int|
            0 <= i <= s@.len() - part@.len() && #[trigger] s@.subrange(i, i + part@.len()) == part@;
        assert(s@ =~= s@.take(i) + part@ + s@.skip(i + part@.len()));
    }
    if exists|a: Seq<char>, b: Seq<char>| s@ == #[trigger] (a + part@ + b) {
        let (a, b) = choose|a: Seq<char>, b: Seq<char>| s@ == #[trigger] (a + part@ + b);
        let i = a.len() as int;
        assert(s@.subrange(i, i + part@.len()) =~= part@);
    }
}

/// What a text is trimmed to.
pub proof fn lemma_trimmed(s: Seq<char>) -> (around: (Seq<char>, Seq<char>))
    ensures
        s == around.0 + trimmed(s) + around.1,
        forall|i: int|
            0 <= i < around.0.len() ==> (#[trigger] around.0[i]) == ' ' || around.0[i] == '\t',
        forall|i: int|
            0 <= i < around.1.len() ==> (#[trigger] around.1[i]) == ' ' || around.1[i] == '\t',
        trimmed(s).len() > 0 ==> trimmed(s)[0] != ' ' && trimmed(s)[0] != '\t' && trimmed(s).last()
            != ' ' && trimmed(s).last() != '\t',
{
    let a = lemma_trim_start(s);
    let b = lemma_trim_end(trim_start(s));
    assert(s =~= a + trimmed(s) + b);
    (a, b)
}

proof fn lemma_trim_start(s: Seq<char>) -> (a: Seq<char>)
    ensures
        s == a + trim_start(s),
        forall|i: int| 0 <= i < a.len() ==> (#[trigger] a[i]) == ' ' || a[i] == '\t',
        trim_start(s).len() > 0 ==> trim_start(s)[0] != ' ' && trim_start(s)[0] != '\t',
    decreases s.len(),
{
    if s.len() > 0 && blank(s[0]) {
        let rest = lemma_trim_start(s.skip(1));
        let a = seq![s[0]] + rest;
        assert(s =~= seq![s[0]] + s.skip(1));
        assert(s =~= a + trim_start(s));
        a
    } else {
        assert(s =~= Seq::<char>::empty() + trim_start(s));
        Seq::empty()
    }
}

proof fn lemma_trim_end(s: Seq<char>) -> (b: Seq<char>)
    ensures
        s == trim_end(s) + b,
        forall|i: int| 0 <= i < b.len() ==> (#[trigger] b[i]) == ' ' || b[i] == '\t',
        trim_end(s).len() > 0 ==> trim_end(s)[0] == s[0] && trim_end(s).last() != ' ' && trim_end(
            s,
        ).last() != '\t',
    decreases s.len(),
{
    if s.len() > 0 && blank(s.last()) {
        let rest = lemma_trim_end(s.drop_last());
        let b = rest.push(s.last());
        assert(s =~= s.drop_last().push(s.last()));
        assert(s =~= trim_end(s) + b);
        b
    } else {
        assert(s =~= trim_end(s) + Seq::<char>::empty());
        Seq::empty()
    }
}

/// Trimming takes spaces and tabs off both ends, all of them and nothing else.
pub proof fn law_trimming_takes_off_blanks(s: &str, r: &str)
    requires
        call_ensures(trim, (s,), r),
    ensures
        exists|a: Seq<char>, b: Seq<char>|
            s@ == #[trigger] (a + r@ + b) && (forall|i: int|
                0 <= i < a.len() ==> (#[trigger] a[i]) == ' ' || a[i] == '\t') && (forall|i: int|
                0 <= i < b.len() ==> (#[trigger] b[i]) == ' ' || b[i] == '\t'),
        r@.len() > 0 ==> r@[0] != ' ' && r@[0] != '\t' && r@.last() != ' ' && r@.last() != '\t',
{
    let (a, b) = lemma_trimmed(s@);
    assert(s@ == a + r@ + b);
}

/// A text without blanks around it is trimmed to itself.
pub proof fn lemma_nothing_to_trim(s: Seq<char>)
    requires
        s.len() > 0 ==> s[0] != ' ' && s[0] != '\t' && s.last() != ' ' && s.last() != '\t',
    ensures
        trimmed(s) == s,
{
}

/// A text without `c` is one part; one that holds it is the part before the first `c`, followed
/// by the parts of what stands behind it.
pub proof fn law_text_splits_at_every_mark(
    s: &str,
    c: char,
    r: Vec<&str>,
    head: Seq<char>,
    tail: &str,
    tail_parts: Vec<&str>,
)
    requires
        call_ensures(split_all, (s, c), r),
        call_ensures(split_all, (tail, c), tail_parts),
    ensures
        !s@.contains(c) ==> r@.len() == 1 && r@[0]@ == s@,
        !head.contains(c) && s@ == head.push(c) + tail@ ==> {
            &&& r@.len() == tail_parts@.len() + 1
            &&& r@[0]@ == head
            &&& forall|i: int|
                0 <= i < tail_parts@.len() ==> (#[trigger] r@[i + 1])@ == tail_parts@[i]@
        },
{
    crate::text::lemma_first_at(s@, c, 0);
    assert(str_views(r@).len() == r@.len());
    assert(str_views(tail_parts@).len() == tail_parts@.len());
    if !s@.contains(c) {
        if let Some(i) = first_at(s@, c, 0) {
            assert(s@[i] == c);
        }
        assert(str_views(r@)[0] == s@);
    }
    if !head.contains(c) && s@ == head.push(c) + tail@ {
        assert(s@[head.len() as int] == c);
        let i = first_at(s@, c, 0)->0;
        if i < head.len() {
            assert(head[i] == s@[i]);
        }
        assert(i == head.len());
        assert(s@.take(i) =~= head);
        assert(s@.skip(i + 1) =~= tail@);
        assert(str_views(r@)[0] == head);
        assert forall|j: int| 0 <= j < tail_parts@.len() implies (#[trigger] r@[j + 1])@
            == tail_parts@[j]@ by {
            assert(str_views(r@)[j + 1] == str_views(tail_parts@)[j]);
        }
    }
}

/// Where all pairs can be header fields, all are kept as they are; else fewer are.
pub proof fn law_usable_fields_are_all_kept(
    pairs: &Vec<(String, String)>,
    kept: Vec<(String, String)>,
    all: bool,
)
    requires
        call_ensures(only_usable, (pairs,), kept),
        call_ensures(all_usable, (pairs,), all),
    ensures
        all ==> kept@.len() == pairs@.len(),
        all ==> forall|i: int|
            0 <= i < pairs@.len() ==> (#[trigger] kept@[i]).0@ == pairs@[i].0@ && kept@[i].1@
                == pairs@[i].1@,
        !all ==> kept@.len() < pairs@.len(),
{
    let p = |p: (Seq<char>, Seq<char>)| usable_field(p);
    let list = text_pairs(pairs@);
    lemma_filter_all(list, p);
    assert(text_pairs(kept@).len() == kept@.len());
    if all {
        assert forall|i: int| 0 <= i < pairs@.len() implies (#[trigger] kept@[i]).0@ == pairs@[i].0@
            && kept@[i].1@ == pairs@[i].1@ by {
            assert(text_pairs(kept@)[i] == list[i]);
        }
    }
}

/// Nothing is left out of a list exactly where every item is to be kept.
pub proof fn lemma_filter_all(
    list: Seq<(Seq<char>, Seq<char>)>,
    p: spec_fn((Seq<char>, Seq<char>)) -> bool,
)
    ensures
        (forall|i: int| 0 <= i < list.len() ==> p(#[trigger] list[i])) ==> list.filter(p) == list,
        !(forall|i: int| 0 <= i < list.len() ==> p(#[trigger] list[i])) ==> list.filter(p).len()
            < list.len(),
        list.filter(p).len() <= list.len(),
    decreases list.len(),
{
    reveal(Seq::filter);
    if list.len() > 0 {
        let front = list.drop_last();
        lemma_filter_all(front, p);
        if forall|i: int| 0 <= i < list.len() ==> p(#[trigger] list[i]) {
            assert forall|i: int| 0 <= i < front.len() implies p(#[trigger] front[i]) by {
                assert(front[i] == list[i]);
            }
            assert(list.filter(p) =~= list);
        } else if p(list.last()) {
            let k = choose|k: int| 0 <= k < list.len() && !p(#[trigger] list[k]);
            assert(front[k] == list[k]);
        }
    } else {
        assert(list.filter(p) =~= list);
    }
}

proof fn lemma_one_usable(pairs: &Vec<(String, String)>, r: bool)
    requires
        call_ensures(all_usable, (pairs,), r),
        pairs@.len() == 1,
    ensures
        r == usable_field((pairs@[0].0@, pairs@[0].1@)),
{
    let list = text_pairs(pairs@);
    assert(list[0] == (pairs@[0].0@, pairs@[0].1@));
    if usable_field(list[0]) {
        assert forall|i: int| 0 <= i < pairs@.len() implies usable_field(#[trigger] list[i]) by {
            assert(i == 0);
        }
    }
}

/// A pair of ASCII texts is a usable header field exactly where the name is made of letters,
/// digits and the signs that tokens allow, at least one and at most 65535 of them, and the value
/// holds no control character but tabs.
pub proof fn law_usable_field_is_token_and_text(pairs: &Vec<(String, String)>, r: bool)
    requires
        call_ensures(all_usable, (pairs,), r),
        pairs@.len() == 1,
        forall|i: int| 0 <= i < pairs@[0].0@.len() ==> 0 <= (#[trigger] pairs@[0].0@[i]) as int <= 127,
        forall|i: int| 0 <= i < pairs@[0].1@.len() ==> 0 <= (#[trigger] pairs@[0].1@[i]) as int <= 127,
    ensures
        r <==> {
            &&& 0 < pairs@[0].0@.len() <= 65535
            &&& forall|i: int|
                0 <= i < pairs@[0].0@.len() ==> {
                    let c = (#[trigger] pairs@[0].0@[i]);
                    'a' <= c <= 'z' || 'A' <= c <= 'Z' || '0' <= c <= '9' || c == '!' || c == '#'
                        || c == '$' || c == '%' || c == '&' || c == '\'' || c == '*' || c == '+'
                        || c == '-' || c == '.' || c == '^' || c == '_' || c == '`' || c == '|'
                        || c == '~'
                }
            &&& forall|i: int|
                0 <= i < pairs@[0].1@.len() ==> {
                    let c = (#[trigger] pairs@[0].1@[i]) as int;
                    c == 9 || 32 <= c <= 126
                }
        },
{
    let name = pairs@[0].0@;
    let value = pairs@[0].1@;
    vstd::utf8::is_ascii_chars_encode_utf8(name);
    vstd::utf8::is_ascii_chars_encode_utf8(value);
    assert(text_pairs(pairs@)[0] == (name, value));
    assert forall|i: int| 0 <= i < name.len() implies encode_utf8(name)[i] == (
    #[trigger] name[i]) as u8 by {}
    assert forall|i: int| 0 <= i < value.len() implies encode_utf8(value)[i] == (
    #[trigger] value[i]) as u8 by {}
    lemma_one_usable(pairs, r);
    assert(r == usable_field((name, value)));
    if r {
        assert forall|i: int| 0 <= i < name.len() implies token_byte((#[trigger] name[i]) as u8) by {
            assert(token_byte(encode_utf8(name)[i]));
        }
        assert forall|i: int| 0 <= i < value.len() implies ({
            let c = (#[trigger] value[i]) as int;
            c == 9 || 32 <= c <= 126
        }) by {
            assert(encode_utf8(value)[i] == value[i] as u8);
        }
    }
}

/// One more pair is kept behind those that were kept before it exactly where it can be a header
/// field itself.
pub proof fn law_fields_are_kept_one_by_one(
    front: &Vec<(String, String)>,
    last: &Vec<(String, String)>,
    pairs: &Vec<(String, String)>,
    kept_front: Vec<(String, String)>,
    kept: Vec<(String, String)>,
    usable: bool,
)
    requires
        last@.len() == 1,
        pairs@ == front@ + last@,
        call_ensures(only_usable, (front,), kept_front),
        call_ensures(only_usable, (pairs,), kept),
        call_ensures(all_usable, (last,), usable),
    ensures
        kept@.len() == kept_front@.len() + (if usable {
            1int
        } else {
            0
        }),
        forall|i: int|
            0 <= i < kept_front@.len() ==> (#[trigger] kept@[i]).0@ == kept_front@[i].0@
                && kept@[i].1@ == kept_front@[i].1@,
        usable ==> kept@.last().0@ == last@[0].0@ && kept@.last().1@ == last@[0].1@,
{
    lemma_one_usable(last, usable);
    let p = |p: (Seq<char>, Seq<char>)| usable_field(p);
    reveal(Seq::filter);
    let all = text_pairs(pairs@);
    assert(all.drop_last() =~= text_pairs(front@));
    assert(all.last() == (last@[0].0@, last@[0].1@));
    assert(text_pairs(kept@) == all.filter(p));
    assert(text_pairs(kept_front@) == text_pairs(front@).filter(p));
    assert(text_pairs(kept@).len() == kept@.len());
    assert(text_pairs(kept_front@).len() == kept_front@.len());
    assert forall|i: int| 0 <= i < kept_front@.len() implies (#[trigger] kept@[i]).0@
        == kept_front@[i].0@ && kept@[i].1@ == kept_front@[i].1@ by {
        assert(text_pairs(kept@)[i] == text_pairs(kept_front@)[i]);
    }
    if usable {
        assert(text_pairs(kept@).last() == (kept@.last().0@, kept@.last().1@));
    }
}

/// Blanks around a text that neither starts nor ends with one are all that is trimmed.
pub proof fn lemma_trims_to(a: Seq<char>, core: Seq<char>, b: Seq<char>)
    requires
        forall|i: int| 0 <= i < a.len() ==> (#[trigger] a[i]) == ' ' || a[i] == '\t',
        forall|i: int| 0 <= i < b.len() ==> (#[trigger] b[i]) == ' ' || b[i] == '\t',
        core.len() > 0 ==> core[0] != ' ' && core[0] != '\t' && core.last() != ' ' && core.last()
            != '\t',
    ensures
        trimmed(a + core + b) == core,
    decreases a.len() + b.len(),
{
    let whole = a + core + b;
    if a.len() > 0 {
        assert(whole.skip(1) =~= a.skip(1) + core + b);
        assert(whole[0] == a[0]);
        lemma_trims_to(a.skip(1), core, b);
    } else if core.len() > 0 {
        assert(whole =~= core + b);
        assert(trim_start(whole) == whole);
        lemma_trims_end_to(core, b);
    } else {
        assert(whole =~= b);
        lemma_trims_all(b);
        assert(core =~= Seq::empty());
    }
}

proof fn lemma_trims_end_to(core: Seq<char>, b: Seq<char>)
    requires
        forall|i: int| 0 <= i < b.len() ==> (#[trigger] b[i]) == ' ' || b[i] == '\t',
        core.len() > 0,
        core.last() != ' ' && core.last() != '\t',
    ensures
        trim_end(core + b) == core,
    decreases b.len(),
{
    if b.len() > 0 {
        assert((core + b).drop_last() =~= core + b.drop_last());
        assert((core + b).last() == b.last());
        lemma_trims_end_to(core, b.drop_last());
    } else {
        assert(core + b =~= core);
    }
}

proof fn lemma_trims_all(b: Seq<char>)
    requires
        forall|i: int| 0 <= i < b.len() ==> (#[trigger] b[i]) == ' ' || b[i] == '\t',
    ensures
        trimmed(b) == Seq::<char>::empty(),
    decreases b.len(),
{
    if b.len() > 0 {
        assert forall|i: int| 0 <= i < b.skip(1).len() implies (#[trigger] b.skip(1)[i]) == ' '
            || b.skip(1)[i] == '\t' by {
            assert(b.skip(1)[i] == b[i + 1]);
        }
        lemma_trims_all(b.skip(1));
    } else {
        assert(b =~= Seq::empty());
    }
}

/// Whether bytes spell a text, character by character, in tabs and printable ASCII.
pub open spec fn spells(bytes: Seq<u8>, text: Seq<char>) -> bool {
    bytes.len() == text.len() && forall|i: int|
        0 <= i < bytes.len() ==> (#[trigger] bytes[i]) as int == text[i] as int && (bytes[i] == 9
            || 32 <= bytes[i] <= 126)
}

/// Bytes that spell a text are read as that text.
pub proof fn lemma_spelled(bytes: Seq<u8>, text: Seq<char>)
    requires
        spells(bytes, text),
    ensures
        value_text(bytes) == Some(text),
{
    assert forall|i: int| 0 <= i < bytes.len() implies visible(#[trigger] bytes[i]) by {
        assert(bytes[i] as int == text[i] as int);
    }
    assert forall|i: int| 0 <= i < bytes.len() implies bytes[i] as char == #[trigger] text[i] by {
        assert(bytes[i] as int == text[i] as int);
    }
    assert(Seq::new(bytes.len(), |i: int| bytes[i] as char) =~= text);
}

/// The text that is found under a name: that which the value of its first field spells.
pub open spec fn has_field(headers: &Headers, name: Seq<char>, text: Seq<char>) -> bool {
    exists|i: int|
        0 <= i < headers.fields@.len() && headers.fields@[i].name@ == name && spells(
            #[trigger] headers.fields@[i].value@,
            text,
        ) && forall|j: int| 0 <= j < i ==> (#[trigger] headers.fields@[j]).name@ != name
}

/// Whether no field has a name.
pub open spec fn lacks_field(headers: &Headers, name: Seq<char>) -> bool {
    forall|j: int| 0 <= j < headers.fields@.len() ==> (#[trigger] headers.fields@[j]).name@ != name
}

/// What the fields of a message say of a name.
pub proof fn lemma_has_field(headers: &Headers, name: Seq<char>, text: Seq<char>)
    ensures
        has_field(headers, name, text) ==> field_text(headers@, name) == Some(text) && value_from(
            headers@,
            name,
            0,
        ) is Some,
        lacks_field(headers, name) ==> value_from(headers@, name, 0) is None,
{
    if has_field(headers, name, text) {
        let i = choose|i: int|
            0 <= i < headers.fields@.len() && headers.fields@[i].name@ == name && spells(
                #[trigger] headers.fields@[i].value@,
                text,
            ) && forall|j: int| 0 <= j < i ==> (#[trigger] headers.fields@[j]).name@ != name;
        lemma_first_field(headers, name, i);
        lemma_spelled(headers.fields@[i].value@, text);
    }
    if lacks_field(headers, name) {
        lemma_missing_field(headers, name);
    }
}

/// Without the fields of one name, that name has no value and any other the one it had.
pub proof fn lemma_without(fields: Seq<(Seq<char>, Seq<u8>)>, name: &str, other: &str)
    ensures
        value_from(fields_without(fields, name@), other@, 0) == (if other@ == name@ {
            None
        } else {
            value_from(fields, other@, 0)
        }),
{
    if other@ != name@ {
        lemma_value_without(fields, name, other@);
    } else {
        let longer = name@.push('x');
        assert(longer.len() != name@.len());
        lemma_value_without(fields, name, longer);
        lemma_no_value_from(fields_without(fields, name@), name@, 0);
    }
}

/// Where no field has a name, there is no value.
pub proof fn lemma_no_value(fields: Seq<(Seq<char>, Seq<u8>)>, name: Seq<char>)
    requires
        forall|j: int| 0 <= j < fields.len() ==> (#[trigger] fields[j]).0 != name,
    ensures
        value_from(fields, name, 0) is None,
{
    lemma_no_value_from(fields, name, 0);
}

/// Whether the value of the first field with a name holds a byte that is no text.
pub open spec fn garbled_field(headers: &Headers, name: Seq<char>) -> bool {
    exists|i: int, k: int|
        0 <= i < headers.fields@.len() && headers.fields@[i].name@ == name && (forall|j: int|
            0 <= j < i ==> (#[trigger] headers.fields@[j]).name@ != name) && 0 <= k
            < headers.fields@[i].value@.len() && (#[trigger] headers.fields@[i].value@[k]) != 9 && !(
        32 <= headers.fields@[i].value@[k] <= 126)
}

/// A garbled field has no text.
pub proof fn lemma_garbled_field(headers: &Headers, name: Seq<char>)
    requires
        garbled_field(headers, name),
    ensures
        field_text(headers@, name) is None,
        value_from(headers@, name, 0) is Some,
{
    let (i, k) = choose|i: int, k: int|
        0 <= i < headers.fields@.len() && headers.fields@[i].name@ == name && (forall|j: int|
            0 <= j < i ==> (#[trigger] headers.fields@[j]).name@ != name) && 0 <= k
            < headers.fields@[i].value@.len() && (#[trigger] headers.fields@[i].value@[k]) != 9 && !(
        32 <= headers.fields@[i].value@[k] <= 126);
    lemma_first_field(headers, name, i);
    assert(!visible(headers.fields@[i].value@[k]));
}

/// A copy of bytes is those bytes.
pub proof fn law_copy_is_the_same_bytes(bytes: &Vec<u8>, r: Vec<u8>)
    requires
        call_ensures(copy_bytes, (bytes,), r),
    ensures
        r@.len() == bytes@.len(),
        forall|i: int| 0 <= i < bytes@.len() ==> #[trigger] r@[i] == bytes@[i],
{
}

} // verus!
