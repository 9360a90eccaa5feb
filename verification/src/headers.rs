//! Response headers: those that describe a file, and those that every response
//! has unless it says otherwise.

use axum::http::HeaderMap;
use vstd::prelude::*;

use crate::errors::ApiError;
use crate::explore::FileHead;
use crate::text;
use crate::time;

verus! {

/// Headers of a request or a response.
#[verifier::external_type_specification]
#[verifier::external_body]
#[verifier::reject_recursive_types(T)]
pub struct ExHeaderMap<T>(axum::http::HeaderMap<T>);

/// A header's value.
#[verifier::external_type_specification]
#[verifier::external_body]
pub struct ExHeaderValue(axum::http::HeaderValue);

/// What a header map holds: for each name, which is in lower case, the bytes of
/// its values in order.
pub uninterp spec fn header_contents(map: HeaderMap) -> Map<Seq<char>, Seq<Seq<u8>>>;

/// A header name in lower case made of letters and hyphens.
pub open spec fn is_header_name(name: Seq<char>) -> bool {
    &&& 0 < name.len() < 64
    &&& forall|i: int| 0 <= i < name.len() ==> ('a' <= #[trigger] name[i] <= 'z' || name[i] == '-')
}

/// A character that may stand in a header value.
pub open spec fn is_header_char(c: char) -> bool {
    c == '\t' || (' ' <= c && c != '\u{7f}')
}

/// Text that may be a header value: without control characters but tabs.
pub open spec fn is_header_text(value: Seq<char>) -> bool {
    forall|i: int| 0 <= i < value.len() ==> is_header_char(#[trigger] value[i])
}

/// The map has so few names that there is room for `more`, however it came to
/// be.
pub open spec fn has_room(contents: Map<Seq<char>, Seq<Seq<u8>>>, more: int) -> bool {
    contents.dom().finite() && contents.dom().len() + more <= 6000
}

/// The contents with a header set to one value.
pub open spec fn with_header(
    contents: Map<Seq<char>, Seq<Seq<u8>>>,
    name: Seq<char>,
    value: Seq<char>,
) -> Map<Seq<char>, Seq<Seq<u8>>> {
    contents.insert(name, seq![vstd::utf8::encode_utf8(value)])
}

/// The contents with a header set to one value if it has none.
pub open spec fn with_default(
    contents: Map<Seq<char>, Seq<Seq<u8>>>,
    name: Seq<char>,
    value: Seq<char>,
) -> Map<Seq<char>, Seq<Seq<u8>>> {
    if contents.contains_key(name) {
        contents
    } else {
        with_header(contents, name, value)
    }
}

/// The contents of a map without headers.
pub open spec fn no_headers() -> Map<Seq<char>, Seq<Seq<u8>>> {
    Map::empty()
}

/// Calls `HeaderMap::new`: the map holds nothing.
#[verifier::external_body]
fn new_headers() -> (out: HeaderMap)
    ensures
        header_contents(out) == no_headers(),
{
    HeaderMap::new()
}

/// Calls `HeaderMap::try_insert`: unless the map is full, the name gets this
/// value in place of any that it had, and the rest stays. A map with less than
/// a few thousand names is not full.
#[verifier::external_body]
fn try_insert(map: &mut HeaderMap, name: &str, value: &str) -> (done: bool)
    requires
        is_header_name(name@),
        is_header_text(value@),
    ensures
        has_room(header_contents(*old(map)), 1) ==> done,
        header_contents(*final(map)) == if done {
            with_header(header_contents(*old(map)), name@, value@)
        } else {
            header_contents(*old(map))
        },
{
    let name = axum::http::HeaderName::from_bytes(name.as_bytes()).unwrap();
    let value = axum::http::HeaderValue::from_str(value).unwrap();
    map.try_insert(name, value).is_ok()
}

/// Calls `HeaderMap::try_entry` and `Entry::or_try_insert`: unless the map is
/// full, the name gets this value if it has none, and the rest stays. A map with
/// less than a few thousand names is not full.
#[verifier::external_body]
fn or_try_insert(map: &mut HeaderMap, name: &str, value: &str) -> (done: bool)
    requires
        is_header_name(name@),
        is_header_text(value@),
    ensures
        has_room(header_contents(*old(map)), 1) ==> done,
        header_contents(*final(map)) == if done {
            with_default(header_contents(*old(map)), name@, value@)
        } else {
            header_contents(*old(map))
        },
{
    let value = axum::http::HeaderValue::from_str(value).unwrap();
    match map.try_entry(name) {
        Ok(entry) => entry.or_try_insert(value).is_ok(),
        Err(_) => false,
    }
}

/// The headers that a response has unless it sets them itself.
pub open spec fn default_headers() -> Seq<(Seq<char>, Seq<char>)> {
    seq![
        ("x-content-type-options"@, "nosniff"@),
        ("x-frame-options"@, "deny"@),
        ("access-control-allow-origin"@, ""@),
        ("content-security-policy"@, "default-src 'none'; sandbox"@),
    ]
}

/// The contents with each of these headers set if it has no value.
pub open spec fn with_defaults(
    contents: Map<Seq<char>, Seq<Seq<u8>>>,
    list: Seq<(Seq<char>, Seq<char>)>,
) -> Map<Seq<char>, Seq<Seq<u8>>>
    decreases list.len(),
{
    if list.len() == 0 {
        contents
    } else {
        with_default(with_defaults(contents, list.drop_last()), list.last().0, list.last().1)
    }
}

/// The header names and values are such as can be set.
proof fn lemma_default_headers_valid()
    ensures
        forall|i: int|
            0 <= i < default_headers().len() ==> is_header_name(
                (#[trigger] default_headers()[i]).0,
            ) && is_header_text(default_headers()[i].1),
{
    reveal_strlit("x-content-type-options");
    reveal_strlit("nosniff");
    reveal_strlit("x-frame-options");
    reveal_strlit("deny");
    reveal_strlit("access-control-allow-origin");
    reveal_strlit("");
    reveal_strlit("content-security-policy");
    reveal_strlit("default-src 'none'; sandbox");
}

fn default_header_list() -> (list: Vec<(&'static str, &'static str)>)
    ensures
        list.len() == default_headers().len(),
        forall|i: int|
            0 <= i < list.len() ==> (#[trigger] list[i]).0@ == default_headers()[i].0 && list[i].1@
                == default_headers()[i].1,
{
    let mut list: Vec<(&'static str, &'static str)> = Vec::new();
    list.push(("x-content-type-options", "nosniff"));
    list.push(("x-frame-options", "deny"));
    list.push(("access-control-allow-origin", ""));
    list.push(("content-security-policy", "default-src 'none'; sandbox"));
    list
}

/// Adds various security headers to make this not as fun to abuse for XSS.
///
/// A header that is set already stays as it is. Says whether all of them found
/// room; if not, those before the first that did not are set.
pub fn headers(map: &mut HeaderMap) -> (done: bool)
    ensures
        has_room(header_contents(*old(map)), 4) ==> done,
        done ==> header_contents(*final(map)) == with_defaults(
            header_contents(*old(map)),
            default_headers(),
        ),
        !done ==> exists|k: int|
            0 <= k < 4 && header_contents(*final(map)) == #[trigger] with_defaults(
                header_contents(*old(map)),
                default_headers().take(k),
            ),
{
    let list = default_header_list();
    let ghost before = header_contents(*map);
    assert(default_headers().take(0) =~= seq![]);
    for i in 0..list.len()
        invariant
            before == header_contents(*old(map)),
            list.len() == default_headers().len(),
            forall|j: int|
                0 <= j < list.len() ==> (#[trigger] list[j]).0@ == default_headers()[j].0
                    && list[j].1@ == default_headers()[j].1,
            header_contents(*map) == with_defaults(before, default_headers().take(i as int)),
            before.dom().finite() ==> header_contents(*map).dom().finite()
                && header_contents(*map).dom().len() <= before.dom().len() + i,
    {
        proof {
            lemma_default_headers_valid();
            let next = default_headers().take(i + 1);
            assert(next.drop_last() =~= default_headers().take(i as int));
            assert(next.last() == default_headers()[i as int]);
        }
        let (name, value) = list[i];
        let ghost here = header_contents(*map);
        if !or_try_insert(map, name, value) {
            return false;
        }
        proof {
            assert(with_header(here, name@, value@).dom() =~= here.dom().insert(name@));
        }
    }
    assert(default_headers().take(4) =~= default_headers());
    true
}

/// The default headers leave those that a response sets itself, each of them
/// has a value then, and setting them again changes nothing.
pub proof fn law_defaults_give_way(
    contents: Map<Seq<char>, Seq<Seq<u8>>>,
    list: Seq<(Seq<char>, Seq<char>)>,
    name: Seq<char>,
)
    ensures
        contents.contains_key(name) ==> with_defaults(contents, list).contains_key(name)
            && with_defaults(contents, list)[name] == contents[name],
        (exists|i: int| 0 <= i < list.len() && (#[trigger] list[i]).0 == name)
            ==> with_defaults(contents, list).contains_key(name),
        with_defaults(with_defaults(contents, list), list) == with_defaults(contents, list),
{
    lemma_defaults_cover(contents, list, name);
    lemma_defaults_again(with_defaults(contents, list), list, contents, list);
}

proof fn lemma_defaults_cover(
    contents: Map<Seq<char>, Seq<Seq<u8>>>,
    list: Seq<(Seq<char>, Seq<char>)>,
    name: Seq<char>,
)
    ensures
        contents.contains_key(name) ==> with_defaults(contents, list).contains_key(name)
            && with_defaults(contents, list)[name] == contents[name],
        (exists|i: int| 0 <= i < list.len() && (#[trigger] list[i]).0 == name)
            ==> with_defaults(contents, list).contains_key(name),
    decreases list.len(),
{
    if list.len() > 0 {
        lemma_defaults_cover(contents, list.drop_last(), name);
        if exists|i: int| 0 <= i < list.len() && (#[trigger] list[i]).0 == name {
            let i = choose|i: int| 0 <= i < list.len() && (#[trigger] list[i]).0 == name;
            if i < list.len() - 1 {
                assert(list.drop_last()[i].0 == name);
            }
        }
    }
}

/// Defaults that are all set already change nothing.
proof fn lemma_defaults_again(
    full: Map<Seq<char>, Seq<Seq<u8>>>,
    part: Seq<(Seq<char>, Seq<char>)>,
    contents: Map<Seq<char>, Seq<Seq<u8>>>,
    list: Seq<(Seq<char>, Seq<char>)>,
)
    requires
        full == with_defaults(contents, list),
        forall|i: int|
            0 <= i < part.len() ==> exists|j: int|
                0 <= j < list.len() && (#[trigger] list[j]) == #[trigger] part[i],
    ensures
        with_defaults(full, part) == full,
    decreases part.len(),
{
    if part.len() > 0 {
        let rest = part.drop_last();
        assert forall|i: int| 0 <= i < rest.len() implies exists|j: int|
            0 <= j < list.len() && (#[trigger] list[j]) == #[trigger] rest[i] by {
            assert(rest[i] == part[i]);
        }
        lemma_defaults_again(full, rest, contents, list);
        assert(part[part.len() - 1] == part.last());
        lemma_defaults_cover(contents, list, part.last().0);
    }
}

/// Printable text may be a header value.
proof fn lemma_printable_is_header_text(value: Seq<char>)
    requires
        text::all_printable(value),
    ensures
        is_header_text(value),
{
    assert forall|i: int| 0 <= i < value.len() implies is_header_char(#[trigger] value[i]) by {
        assert(text::is_printable(value[i]));
    }
}

/// Whether a text may be a header value.
fn is_header_value(value: &str) -> (yes: bool)
    ensures
        yes == is_header_text(value@),
{
    for c in it: value.chars()
        invariant
            it.seq() == value@,
            forall|j: int| 0 <= j < it.index() ==> is_header_char(#[trigger] value@[j]),
    {
        if !(c == '\t' || (' ' <= c && c != '\u{7f}')) {
            return false;
        }
    }
    true
}

/// The headers of the answer that shows a file: its length, the Content-Type
/// given on upload, and when it was last modified.
pub open spec fn file_header_contents(head: FileHead<Seq<char>>) -> Map<Seq<char>, Seq<Seq<u8>>> {
    with_header(
        with_header(
            with_header(no_headers(), "content-length"@, text::decimal(head.length as nat)),
            "content-type"@,
            head.metadata.content_type,
        ),
        "last-modified"@,
        time::http_date_text(head.metadata.last_modified_at.secs as u64),
    )
}

/// Makes the headers of the answer that shows a file.
pub fn file_headers(head: &FileHead) -> (out: Result<HeaderMap, ApiError>)
    requires
        time::http_date_fits(head.metadata.last_modified_at),
    ensures
        match out {
            Ok(map) => is_header_text(head@.metadata.content_type) && header_contents(map)
                == file_header_contents(head@),
            Err(e) => !is_header_text(head@.metadata.content_type) && e@ == ApiError::InternalError(
                "failed to parse header value"@,
            ),
        },
{
    if !is_header_value(&head.metadata.content_type) {
        return Err(ApiError::internal("failed to parse header value".to_owned()));
    }
    let mut map = new_headers();
    let length = text::decimal_text(head.length);
    let modified = time::http_date(head.metadata.last_modified_at);
    proof {
        text::lemma_decimal_printable(head.length as nat);
        lemma_printable_is_header_text(length@);
        lemma_printable_is_header_text(modified@);
        reveal_strlit("content-length");
        reveal_strlit("content-type");
        reveal_strlit("last-modified");
        assert(no_headers().dom() =~= Set::empty());
    }
    let _ = try_insert(&mut map, "content-length", &length);
    assert(header_contents(map).dom() =~= set!["content-length"@]);
    let _ = try_insert(&mut map, "content-type", &head.metadata.content_type);
    assert(header_contents(map).dom() =~= set!["content-length"@, "content-type"@]);
    let _ = try_insert(&mut map, "last-modified", &modified);
    Ok(map)
}

/// With the default headers, a response that does not set them itself tells the
/// browser not to guess the type, not to frame it, that no other origin may read
/// it, and to sandbox it; one that does keeps what it set. No other header
/// changes.
pub proof fn law_default_headers_protect(
    contents: Map<Seq<char>, Seq<Seq<u8>>>,
    name: Seq<char>,
)
    ensures
        ({
            let all = with_defaults(contents, default_headers());
            let value = if name == "x-content-type-options"@ {
                Some("nosniff"@)
            } else if name == "x-frame-options"@ {
                Some("deny"@)
            } else if name == "access-control-allow-origin"@ {
                Some(""@)
            } else if name == "content-security-policy"@ {
                Some("default-src 'none'; sandbox"@)
            } else {
                None
            };
            if contents.contains_key(name) {
                all.contains_key(name) && all[name] == contents[name]
            } else if let Some(value) = value {
                all.contains_key(name) && all[name] == seq![vstd::utf8::encode_utf8(value)]
            } else {
                !all.contains_key(name)
            }
        }),
{
    let list = default_headers();
    reveal_strlit("x-content-type-options");
    reveal_strlit("x-frame-options");
    reveal_strlit("access-control-allow-origin");
    reveal_strlit("content-security-policy");
    assert("x-content-type-options"@.len() == 22);
    assert("x-frame-options"@.len() == 15);
    assert("access-control-allow-origin"@.len() == 27);
    assert("content-security-policy"@.len() == 23);
    let l3 = list.drop_last();
    let l2 = l3.drop_last();
    let l1 = l2.drop_last();
    let l0 = l1.drop_last();
    assert(l0.len() == 0);
    assert(l1.last() == list[0] && l2.last() == list[1] && l3.last() == list[2]);
    assert(with_defaults(contents, l0) == contents);
    assert(with_defaults(contents, l1) == with_default(contents, list[0].0, list[0].1));
    assert(with_defaults(contents, l2) == with_default(
        with_defaults(contents, l1),
        list[1].0,
        list[1].1,
    ));
    assert(with_defaults(contents, l3) == with_default(
        with_defaults(contents, l2),
        list[2].0,
        list[2].1,
    ));
    assert(with_defaults(contents, list) == with_default(
        with_defaults(contents, l3),
        list[3].0,
        list[3].1,
    ));
}

/// The answer that shows a file has its length, as a number that reads back, the
/// Content-Type as it was given on upload, and the time of modification as HTTP
/// shows it, one of each and nothing else. It is refused only if the
/// Content-Type holds a control character other than a tab.
pub proof fn law_file_headers_show_the_file(head: FileHead, out: Result<HeaderMap, ApiError>)
    requires
        call_ensures(file_headers, (&head,), out),
    ensures
        ({
            let content_type = head.metadata.content_type@;
            let clean = forall|i: int|
                0 <= i < content_type.len() ==> (#[trigger] content_type[i] == '\t' || (
                content_type[i] >= ' ' && content_type[i] != '\u{7f}'));
            &&& out is Ok <==> clean
            &&& out is Err ==> (out matches Err(ApiError::InternalError(_)))
            &&& out matches Ok(map) ==> {
                let shown = header_contents(map);
                &&& shown.dom() == set!["content-length"@, "content-type"@, "last-modified"@]
                &&& shown["content-type"@] == seq![vstd::utf8::encode_utf8(content_type)]
                &&& exists|length: Seq<char>|
                    text::number_of(length) == head.length && shown["content-length"@]
                        == seq![#[trigger] vstd::utf8::encode_utf8(length)]
                &&& shown["last-modified"@] == seq![
                    vstd::utf8::encode_utf8(
                        time::http_date_text(head.metadata.last_modified_at.secs as u64),
                    ),
                ]
            }
        }),
{
    let content_type = head.metadata.content_type@;
    let length = text::decimal(head.length as nat);
    text::lemma_decimal(head.length as nat);
    reveal_strlit("content-length");
    reveal_strlit("content-type");
    reveal_strlit("last-modified");
    assert("content-length"@.len() == 14);
    assert("content-type"@.len() == 12);
    assert("last-modified"@.len() == 13);
    assert(is_header_text(content_type) <==> forall|i: int|
        0 <= i < content_type.len() ==> (#[trigger] content_type[i] == '\t' || (content_type[i]
            >= ' ' && content_type[i] != '\u{7f}')));
    let shown = file_header_contents(head@);
    assert(shown.dom() =~= set!["content-length"@, "content-type"@, "last-modified"@]);
    assert(shown["content-length"@] == seq![vstd::utf8::encode_utf8(length)]);
}

} // verus!
