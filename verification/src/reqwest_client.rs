//! What an HTTP client decides about its requests and responses. Sending them is left
//! to the client's runtime.

use bytes::Bytes;
use http::response::{Builder, Parts};
use reqwest::header::{HeaderMap, HeaderName, HeaderValue, InvalidHeaderValue, MaxSizeReached};
use reqwest::Url;
use vstd::prelude::*;
use vstd::utf8;

verus! {

/// A buffer of bytes that is cheap to share.
#[verifier::external_type_specification]
#[verifier::external_body]
pub struct ExBytes(bytes::Bytes);

/// The name of a header.
#[verifier::external_type_specification]
#[verifier::external_body]
pub struct ExHeaderName(reqwest::header::HeaderName);

/// The value of a header.
#[verifier::external_type_specification]
#[verifier::external_body]
pub struct ExHeaderValue(reqwest::header::HeaderValue);

/// Why a text is not the value of a header.
#[verifier::external_type_specification]
#[verifier::external_body]
pub struct ExInvalidHeaderValue(reqwest::header::InvalidHeaderValue);

/// Why no further header could be taken in.
#[verifier::external_type_specification]
#[verifier::external_body]
pub struct ExMaxSizeReached(reqwest::header::MaxSizeReached);

/// A collection of headers, each with one value or more.
#[verifier::external_type_specification]
#[verifier::external_body]
#[verifier::reject_recursive_types(T)]
pub struct ExHeaderMap<T>(reqwest::header::HeaderMap<T>);

/// A response that is being put together.
#[verifier::external_type_specification]
#[verifier::external_body]
pub struct ExBuilder(http::response::Builder);

/// What comes before the body of a response.
#[verifier::external_type_specification]
#[verifier::external_body]
pub struct ExParts(http::response::Parts);

/// Why a response could not be put together.
#[verifier::external_type_specification]
#[verifier::external_body]
pub struct ExHttpError(http::Error);

/// An address on the web.
#[verifier::external_type_specification]
#[verifier::external_body]
pub struct ExUrl(reqwest::Url);

/// What a buffer holds.
pub uninterp spec fn buffer_bytes(buffer: Bytes) -> Seq<u8>;

/// The lower-case text of a header's name: that of `HeaderName::as_str`.
pub uninterp spec fn name_text(name: HeaderName) -> Seq<char>;

/// The bytes of a header's value: those of `HeaderValue::as_bytes`.
pub uninterp spec fn value_bytes(value: HeaderValue) -> Seq<u8>;

/// Whether a header's value is marked as sensitive: `HeaderValue::is_sensitive`.
pub uninterp spec fn value_sensitive(value: HeaderValue) -> bool;

/// What a header's value holds: its bytes, and whether it is marked as sensitive.
pub struct HeldValue {
    pub bytes: Seq<u8>,
    pub sensitive: bool,
}

/// What the given value holds.
pub open spec fn held(value: HeaderValue) -> HeldValue {
    HeldValue { bytes: value_bytes(value), sensitive: value_sensitive(value) }
}

/// A value of the given bytes that is not marked as sensitive.
pub open spec fn unmarked(bytes: Seq<u8>) -> HeldValue {
    HeldValue { bytes, sensitive: false }
}

/// The headers with no value marked as sensitive.
pub open spec fn all_unmarked(headers: Map<Seq<char>, Seq<HeldValue>>) -> Map<
    Seq<char>,
    Seq<HeldValue>,
> {
    Map::new(
        |name: Seq<char>| headers.dom().contains(name),
        |name: Seq<char>|
            Seq::new(headers[name].len(), |i: int| unmarked(headers[name][i].bytes)),
    )
}

/// What a collection of headers holds: the values of each name, in order.
pub uninterp spec fn header_values(headers: HeaderMap) -> Map<Seq<char>, Seq<HeldValue>>;

/// What a response that is being put together holds: its status and the values of
/// each of its headers, or nothing once something in it was refused.
pub uninterp spec fn response_parts(builder: Builder) -> Option<
    (u16, Map<Seq<char>, Seq<HeldValue>>),
>;

/// The status of a response and the values of each of its headers.
pub uninterp spec fn head_parts(head: Parts) -> (u16, Map<Seq<char>, Seq<HeldValue>>);

/// A collection of headers without any.
pub open spec fn no_headers() -> Map<Seq<char>, Seq<HeldValue>> {
    Map::empty()
}

/// The values of a name; none where there is no such header.
pub open spec fn values_of(headers: Map<Seq<char>, Seq<HeldValue>>, name: Seq<char>) -> Seq<
    HeldValue,
> {
    if headers.dom().contains(name) {
        headers[name]
    } else {
        Seq::empty()
    }
}

/// Whether a header's value may be made of these bytes: no control characters but tabs.
pub open spec fn permitted(bytes: Seq<u8>) -> bool {
    forall|i: int|
        0 <= i < bytes.len() ==> #[trigger] bytes[i] == 9u8 || (bytes[i] >= 32u8 && bytes[i]
            != 127u8)
}

/// The number of names below which a collection of headers always takes in another. It
/// refuses one only where its table of 32768 slots would have to be doubled, and it
/// never doubles a table of which less than a fifth is in use.
pub const ALWAYS_ROOM: usize = 6554;

/// The values that a list of headers gives a name, in order.
pub open spec fn values_in(entries: Seq<(&HeaderName, &HeaderValue)>, name: Seq<char>) -> Seq<
    HeldValue,
>
    decreases entries.len(),
{
    if entries.len() == 0 {
        Seq::empty()
    } else if name_text(*entries.last().0) == name {
        values_in(entries.drop_last(), name).push(held(*entries.last().1))
    } else {
        values_in(entries.drop_last(), name)
    }
}

/// The names in a list of headers.
pub open spec fn names_in(entries: Seq<(&HeaderName, &HeaderValue)>) -> Set<Seq<char>>
    decreases entries.len(),
{
    if entries.len() == 0 {
        Set::empty()
    } else {
        names_in(entries.drop_last()).insert(name_text(*entries.last().0))
    }
}

/// The headers with nothing but the last value of each name.
pub open spec fn last_values(headers: Map<Seq<char>, Seq<HeldValue>>) -> Map<
    Seq<char>,
    Seq<HeldValue>,
> {
    Map::new(|name: Seq<char>| headers.dom().contains(name), |name: Seq<char>| seq![headers[name].last()])
}

/// The headers with one more value for a name, after those it has.
pub open spec fn appended(
    headers: Map<Seq<char>, Seq<HeldValue>>,
    name: Seq<char>,
    value: HeldValue,
) -> Map<Seq<char>, Seq<HeldValue>> {
    headers.insert(name, values_of(headers, name).push(value))
}

/// The collection that a list of headers amounts to.
pub open spec fn collected(entries: Seq<(&HeaderName, &HeaderValue)>) -> Map<
    Seq<char>,
    Seq<HeldValue>,
> {
    Map::new(
        |name: Seq<char>| names_in(entries).contains(name),
        |name: Seq<char>| values_in(entries, name),
    )
}

/// `HeaderMap::new`: a collection without headers.
#[verifier::external_body]
fn new_headers() -> (headers: HeaderMap)
    ensures
        header_values(headers) == no_headers(),
{
    HeaderMap::new()
}

/// `HeaderMap::iter`: every name with every one of its values. The names come in no
/// particular order, the values of one name in theirs.
#[verifier::external_body]
fn header_entries<'a>(headers: &'a HeaderMap) -> (entries: Vec<(&'a HeaderName, &'a HeaderValue)>)
    ensures
        header_values(*headers) == collected(entries@),
{
    headers.iter().collect()
}

/// `HeaderMap::try_insert`: a clone of the value, with its mark, takes the place of all values that the name
/// has, or nothing changes. The latter only comes of a collection that would have to
/// grow beyond its limit, for which it must hold many names.
#[verifier::external_body]
fn insert_header(headers: &mut HeaderMap, name: &HeaderName, value: &HeaderValue) -> (inserted:
    Result<(), MaxSizeReached>)
    ensures
        inserted is Ok ==> header_values(*final(headers)) == header_values(*old(headers)).insert(
            name_text(*name),
            seq![held(*value)],
        ),
        inserted is Err ==> header_values(*final(headers)) == header_values(*old(headers)),
        header_values(*old(headers)).dom().finite() && header_values(*old(headers)).dom().len()
            < ALWAYS_ROOM ==> inserted is Ok,
{
    match headers.try_insert(name.clone(), value.clone()) {
        Ok(_) => Ok(()),
        Err(error) => Err(error),
    }
}

/// `HeaderValue::from_str`: the text as a header's value, where all of its bytes are
/// permitted. It is not marked as sensitive.
#[verifier::external_body]
fn header_value(text: &str) -> (value: Result<HeaderValue, InvalidHeaderValue>)
    ensures
        match value {
            Ok(value) => permitted(utf8::encode_utf8(text@)) && value_bytes(value)
                == utf8::encode_utf8(text@) && !value_sensitive(value),
            Err(_) => !permitted(utf8::encode_utf8(text@)),
        },
{
    HeaderValue::from_str(text)
}

/// `Builder::new` and `Builder::status`: a response without headers, refused where
/// its status is not a number of three digits.
#[verifier::external_body]
fn start_response(status: u16) -> (builder: Builder)
    ensures
        response_parts(builder) == (if 100 <= status <= 999 {
            Some((status, no_headers()))
        } else {
            None
        }),
{
    Builder::new().status(status)
}

/// `Builder::header`: the response with one more value for a name. The text of the
/// name is read anew, which a name with a quotation mark does not survive, and so are
/// the bytes of the value, which loses its mark. A response that holds many names may be refused for its
/// size.
#[verifier::external_body]
fn add_header(builder: Builder, name: &HeaderName, value: &HeaderValue) -> (out: Builder)
    ensures
        response_parts(builder) is None ==> response_parts(out) is None,
        response_parts(builder) matches Some((status, headers)) ==> {
            &&& response_parts(out) matches Some(parts) ==> {
                &&& parts == (status, appended(headers, name_text(*name), unmarked(value_bytes(*value))))
                &&& !name_text(*name).contains('"')
                &&& permitted(value_bytes(*value))
            }
            &&& !name_text(*name).contains('"') && permitted(value_bytes(*value))
                && headers.dom().finite() && headers.dom().len() < ALWAYS_ROOM
                ==> response_parts(out) is Some
        },
{
    builder.header(name.as_str(), value.as_bytes())
}

/// `Builder::body`, with `Response::into_parts` on the response: what was put together
/// and the body as it was given, or an error where something was refused.
#[verifier::external_body]
fn finish<T>(builder: Builder, body: T) -> (finished: Result<(Parts, T), http::Error>)
    ensures
        match finished {
            Ok((head, kept)) => response_parts(builder) == Some(head_parts(head)) && kept == body,
            Err(_) => response_parts(builder) is None,
        },
{
    builder.body(body).map(http::Response::into_parts)
}

/// `Bytes::new`: a buffer without bytes.
#[verifier::external_body]
fn empty_buffer() -> (buffer: Bytes)
    ensures
        buffer_bytes(buffer) == Seq::<u8>::empty(),
{
    Bytes::new()
}

/// `Bytes::from`: the bytes of the vector.
#[verifier::external_body]
fn buffer_of(bytes: Vec<u8>) -> (buffer: Bytes)
    ensures
        buffer_bytes(buffer) == bytes@,
{
    Bytes::from(bytes)
}

/// The names of a list are those that it has values for, and there are finitely many.
proof fn lemma_names(entries: Seq<(&HeaderName, &HeaderValue)>)
    ensures
        names_in(entries).finite(),
        forall|name: Seq<char>| #[trigger]
            names_in(entries).contains(name) <==> values_in(entries, name).len() > 0,
    decreases entries.len(),
{
    if entries.len() > 0 {
        lemma_names(entries.drop_last());
    }
}

/// The beginning of a list has no other names than the list.
proof fn lemma_fewer_names(entries: Seq<(&HeaderName, &HeaderValue)>, count: int)
    requires
        0 <= count <= entries.len(),
    ensures
        names_in(entries.take(count)).subset_of(names_in(entries)),
        names_in(entries.take(count)).len() <= names_in(entries).len(),
    decreases entries.len() - count,
{
    lemma_names(entries);
    lemma_names(entries.take(count));
    if count < entries.len() {
        lemma_fewer_names(entries, count + 1);
        assert(entries.take(count + 1).drop_last() =~= entries.take(count));
    } else {
        assert(entries.take(count) =~= entries);
    }
    vstd::set_lib::lemma_len_subset(names_in(entries.take(count)), names_in(entries));
}

/// More headers than the collection takes in.
#[derive(Clone, Copy, Debug, PartialEq, Eq, Structural)]
pub struct TooManyHeaders;

/// The headers with one value for a name in place of all that it has, unless the
/// collection refuses it.
fn with_header(headers: HeaderMap, name: &HeaderName, value: &HeaderValue) -> (out: Result<
    HeaderMap,
    MaxSizeReached,
>)
    ensures
        out matches Ok(out) ==> header_values(out) == header_values(headers).insert(
            name_text(*name),
            seq![held(*value)],
        ),
        header_values(headers).dom().finite() && header_values(headers).dom().len() < ALWAYS_ROOM
            ==> out is Ok,
{
    let mut headers = headers;
    match insert_header(&mut headers, name, value) {
        Ok(()) => Ok(headers),
        Err(error) => Err(error),
    }
}

/// Whether the entries can come of listing the headers.
pub closed spec fn listed(headers: HeaderMap, entries: Vec<(&HeaderName, &HeaderValue)>) -> bool {
    call_ensures(header_entries, (&headers,), entries)
}

/// Whether the collection can have refused a value for a name.
pub closed spec fn refused(headers: HeaderMap, name: HeaderName, value: HeaderValue) -> bool {
    exists|error: MaxSizeReached| #[trigger]
        call_ensures(with_header, (headers, &name, &value), Err(error))
}

/// Whether listing the headers can have come upon one that the collection of those before
/// it refused.
pub open spec fn runs_full(headers: HeaderMap) -> bool {
    exists|entries: Vec<(&HeaderName, &HeaderValue)>, i: int, sent: HeaderMap| #[trigger]
        listed(headers, entries) && 0 <= i < entries@.len() && header_values(sent)
            == last_values(collected(entries@.take(i))) && #[trigger] refused(
            sent,
            *(#[trigger] entries@[i]).0,
            *entries@[i].1,
        )
}

/// The headers that a request is sent with: of every name the last value that was
/// given, with its mark.
pub fn request_headers(headers: &HeaderMap) -> (sent: Result<HeaderMap, TooManyHeaders>)
    ensures
        sent matches Ok(sent) ==> header_values(sent) == last_values(header_values(*headers)),
        header_values(*headers).dom().len() < ALWAYS_ROOM ==> sent is Ok,
        sent is Err ==> runs_full(*headers),
{
    let entries = header_entries(headers);
    assert(listed(*headers, entries));
    let mut sent = new_headers();
    assert(last_values(collected(entries@.take(0))) =~= no_headers());
    let mut i: usize = 0;
    while i < entries.len()
        invariant
            i <= entries@.len(),
            header_values(*headers) == collected(entries@),
            listed(*headers, entries),
            header_values(sent) == last_values(collected(entries@.take(i as int))),
        decreases entries@.len() - i,
    {
        let ghost before = entries@.take(i as int);
        let ghost after = entries@.take(i + 1);
        let (name, value) = entries[i];
        proof {
            assert(after.drop_last() =~= before);
            assert(after.last() == (name, value));
            lemma_names(before);
            lemma_names(entries@);
            lemma_fewer_names(entries@, i as int);
            lemma_fewer_names(entries@, i + 1);
            assert(last_values(collected(before)).dom() =~= names_in(before));
            assert(collected(entries@).dom() =~= names_in(entries@));
            assert(last_values(collected(before)).insert(
                name_text(*name),
                seq![held(*value)],
            )
                =~= last_values(collected(after)));
        }
        let ghost tried = sent;
        match with_header(sent, name, value) {
            Ok(more) => {
                sent = more;
            },
            Err(error) => {
                assert(call_ensures(
                    with_header,
                    (tried, name, value),
                    Err::<HeaderMap, MaxSizeReached>(error),
                ));
                assert(refused(tried, *entries@[i as int].0, *entries@[i as int].1));
                return Err(TooManyHeaders);
            },
        }
        i += 1;
    }
    assert(entries@.take(entries@.len() as int) =~= entries@);
    Ok(sent)
}

/// Whether a header's name and value can be read anew.
pub open spec fn legible(name: Seq<char>, value: Seq<u8>) -> bool {
    !name.contains('"') && permitted(value)
}

/// Whether all names and values of a collection can be read anew.
pub open spec fn all_legible(headers: Map<Seq<char>, Seq<HeldValue>>) -> bool {
    forall|name: Seq<char>, i: int|
        headers.dom().contains(name) && 0 <= i < headers[name].len() ==> legible(
            name,
            (#[trigger] headers[name][i]).bytes,
        )
}

/// A collection can be read anew as far as the list of its headers can.
proof fn lemma_legible(entries: Seq<(&HeaderName, &HeaderValue)>)
    ensures
        all_legible(collected(entries)) <==> (forall|i: int|
            0 <= i < entries.len() ==> legible(
                name_text(*(#[trigger] entries[i]).0),
                value_bytes(*entries[i].1),
            )),
    decreases entries.len(),
{
    lemma_names(entries);
    if entries.len() > 0 {
        let before = entries.drop_last();
        let name = name_text(*entries.last().0);
        let value = value_bytes(*entries.last().1);
        lemma_legible(before);
        lemma_names(before);
        if all_legible(collected(entries)) {
            let values = collected(entries)[name];
            assert(values[values.len() - 1].bytes == value);
            assert forall|n: Seq<char>, i: int|
                collected(before).dom().contains(n) && 0 <= i < collected(
                    before,
                )[n].len() implies legible(n, (#[trigger] collected(before)[n][i]).bytes) by {
                assert(collected(entries)[n][i] == collected(before)[n][i]);
            }
            assert(all_legible(collected(before)));
            assert forall|i: int| 0 <= i < entries.len() implies legible(
                name_text(*(#[trigger] entries[i]).0),
                value_bytes(*entries[i].1),
            ) by {
                if i < before.len() {
                    assert(before[i] == entries[i]);
                }
            }
        }
        if forall|i: int|
            0 <= i < entries.len() ==> legible(
                name_text(*(#[trigger] entries[i]).0),
                value_bytes(*entries[i].1),
            ) {
            assert(entries.last() == entries[entries.len() - 1]);
            assert forall|i: int| 0 <= i < before.len() implies legible(
                name_text(*(#[trigger] before[i]).0),
                value_bytes(*before[i].1),
            ) by {
                assert(before[i] == entries[i]);
            }
            assert forall|n: Seq<char>, i: int|
                collected(entries).dom().contains(n) && 0 <= i < collected(
                    entries,
                )[n].len() implies legible(n, (#[trigger] collected(entries)[n][i]).bytes) by {
                if i < values_in(before, n).len() {
                    assert(collected(before)[n][i] == collected(entries)[n][i]);
                }
            }
        }
    }
}

/// One more header at the end of a list is one more value for its name, also where no
/// value is marked.
proof fn lemma_append_unmarked(
    before: Seq<(&HeaderName, &HeaderValue)>,
    after: Seq<(&HeaderName, &HeaderValue)>,
)
    requires
        after.len() > 0,
        before == after.drop_last(),
    ensures
        appended(
            all_unmarked(collected(before)),
            name_text(*after.last().0),
            unmarked(value_bytes(*after.last().1)),
        ) == all_unmarked(collected(after)),
{
    let name = name_text(*after.last().0);
    let value = unmarked(value_bytes(*after.last().1));
    let old_headers = all_unmarked(collected(before));
    let new_headers = all_unmarked(collected(after));
    lemma_names(before);
    lemma_names(after);
    assert(values_of(old_headers, name).push(value) =~= new_headers[name]) by {
        assert(values_of(old_headers, name).len() == values_in(before, name).len());
        assert(values_in(after, name) == values_in(before, name).push(held(*after.last().1)));
    }
    assert(appended(old_headers, name, value) =~= new_headers);
}

/// Whether the builders can come of one another: the first of the status, and each of the
/// others of the one before it and the next of the listed headers.
pub closed spec fn built_up(
    status: u16,
    entries: Seq<(&HeaderName, &HeaderValue)>,
    builders: Seq<Builder>,
) -> bool {
    &&& builders.len() == entries.len() + 1
    &&& call_ensures(start_response, (status,), builders[0])
    &&& forall|i: int|
        0 <= i < entries.len() ==> call_ensures(
            add_header,
            (builders[i], (#[trigger] entries[i]).0, entries[i].1),
            builders[i + 1],
        )
}

/// Whether `builder` can come of a status and of the listed headers, added one by one.
pub open spec fn put_together(
    status: u16,
    entries: Seq<(&HeaderName, &HeaderValue)>,
    builder: Builder,
) -> bool {
    exists|builders: Seq<Builder>| #[trigger]
        built_up(status, entries, builders) && builders.last() == builder
}

/// Whether `finished` can come of putting a response together from the status, all of the
/// headers and the body.
pub closed spec fn finishes_to<T>(
    status: u16,
    headers: HeaderMap,
    body: T,
    finished: Result<(Parts, T), http::Error>,
) -> bool {
    exists|entries: Vec<(&HeaderName, &HeaderValue)>, builder: Builder| #[trigger]
        call_ensures(header_entries, (&headers,), entries) && #[trigger] put_together(
            status,
            entries@,
            builder,
        ) && call_ensures(finish::<T>, (builder, body), finished)
}

/// What a response with the given status and headers is put together from: the
/// status, and every header with all of its values, none of them marked as sensitive.
fn response_head(status: u16, headers: &HeaderMap) -> (builder: Builder)
    ensures
        response_parts(builder) matches Some(parts) ==> {
            &&& 100 <= status <= 999
            &&& all_legible(header_values(*headers))
            &&& parts == (status, all_unmarked(header_values(*headers)))
        },
        100 <= status <= 999 && all_legible(header_values(*headers)) && header_values(
            *headers,
        ).dom().len() < ALWAYS_ROOM ==> response_parts(builder) is Some,
        exists|entries: Vec<(&HeaderName, &HeaderValue)>| #[trigger]
            call_ensures(header_entries, (headers,), entries) && put_together(
                status,
                entries@,
                builder,
            ),
{
    let entries = header_entries(headers);
    let mut builder = start_response(status);
    let ghost mut builders = seq![builder];
    proof {
        assert(all_unmarked(collected(entries@.take(0))) =~= no_headers());
        lemma_legible(entries@);
    }
    let ghost whole = 100 <= status <= 999 && all_legible(header_values(*headers))
        && header_values(*headers).dom().len() < ALWAYS_ROOM;
    let mut i: usize = 0;
    while i < entries.len()
        invariant
            i <= entries@.len(),
            header_values(*headers) == collected(entries@),
            whole == (100 <= status <= 999 && all_legible(header_values(*headers))
                && header_values(*headers).dom().len() < ALWAYS_ROOM),
            all_legible(collected(entries@)) <==> (forall|j: int|
                0 <= j < entries@.len() ==> legible(
                    name_text(*(#[trigger] entries@[j]).0),
                    value_bytes(*entries@[j].1),
                )),
            response_parts(builder) matches Some(parts) ==> {
                &&& 100 <= status <= 999
                &&& parts == (status, all_unmarked(collected(entries@.take(i as int))))
                &&& forall|j: int|
                    0 <= j < i ==> legible(
                        name_text(*(#[trigger] entries@[j]).0),
                        value_bytes(*entries@[j].1),
                    )
            },
            whole ==> response_parts(builder) is Some,
            built_up(status, entries@.take(i as int), builders),
            builders.last() == builder,
        decreases entries@.len() - i,
    {
        let ghost before = entries@.take(i as int);
        let ghost after = entries@.take(i + 1);
        let (name, value) = entries[i];
        proof {
            assert(after.drop_last() =~= before);
            assert(after.last() == (name, value));
            lemma_names(before);
            lemma_names(after);
            lemma_names(entries@);
            lemma_fewer_names(entries@, i as int);
            assert(all_unmarked(collected(before)).dom() =~= names_in(before));
            assert(collected(entries@).dom() =~= names_in(entries@));
            lemma_append_unmarked(before, after);
        }
        let ghost unfinished = builder;
        builder = add_header(builder, name, value);
        proof {
            let longer = builders.push(builder);
            assert(call_ensures(add_header, (unfinished, name, value), builder));
            assert forall|j: int| 0 <= j < after.len() implies call_ensures(
                add_header,
                (longer[j], (#[trigger] after[j]).0, after[j].1),
                longer[j + 1],
            ) by {
                if j < i {
                    assert(after[j] == before[j]);
                }
            }
            builders = longer;
        }
        i += 1;
    }
    assert(entries@.take(entries@.len() as int) =~= entries@);
    assert(put_together(status, entries@, builder));
    builder
}

/// The response that the client hands on: the status, every header with all of its
/// values, none of them marked as sensitive, and the body. It is refused where the status is not a number of three digits,
/// where a header cannot be read anew, and otherwise only for the number of its headers.
pub fn finished_response<T>(status: u16, headers: &HeaderMap, body: T) -> (finished: Result<
    (Parts, T),
    http::Error,
>)
    ensures
        match finished {
            Ok((head, kept)) => {
                &&& 100 <= status <= 999
                &&& all_legible(header_values(*headers))
                &&& head_parts(head) == (status, all_unmarked(header_values(*headers)))
                &&& kept == body
            },
            Err(_) => {
                ||| !(100 <= status <= 999)
                ||| !all_legible(header_values(*headers))
                ||| header_values(*headers).dom().len() >= ALWAYS_ROOM
            },
        },
        finishes_to(status, *headers, body, finished),
{
    let builder = response_head(status, headers);
    let ghost whole_body = body;
    let finished = finish(builder, body);
    assert(finishes_to(status, *headers, whole_body, finished)) by {
        let entries = choose|entries: Vec<(&HeaderName, &HeaderValue)>| #[trigger]
            call_ensures(header_entries, (headers,), entries) && put_together(
                status,
                entries@,
                builder,
            );
        assert(call_ensures(header_entries, (headers,), entries));
    }
    finished
}

/// The body of a request as it is handed in.
pub enum RequestBody {
    /// No body.
    Empty,
    /// A body that is at hand.
    Bytes(Bytes),
    /// A body that was read: what was read of it, and whether that is all of it.
    Read { buffer: Vec<u8>, complete: bool },
}

impl RequestBody {
    /// The bytes to send. A body that could not be read to its end is not sent at all.
    pub open spec fn sent(&self) -> Seq<u8> {
        match self {
            RequestBody::Empty => Seq::empty(),
            RequestBody::Bytes(buffer) => buffer_bytes(*buffer),
            RequestBody::Read { buffer, complete } => if *complete {
                buffer@
            } else {
                Seq::empty()
            },
        }
    }
}

/// The bytes that a request is sent with.
pub fn request_body(body: RequestBody) -> (sent: Bytes)
    ensures
        buffer_bytes(sent) == body.sent(),
        body matches RequestBody::Bytes(buffer) ==> sent == buffer,
        body matches RequestBody::Read { buffer, complete: true } ==> buffer_bytes(sent) == buffer@,
{
    match body {
        RequestBody::Empty => empty_buffer(),
        RequestBody::Bytes(buffer) => buffer,
        RequestBody::Read { buffer, complete } => {
            if complete {
                buffer_of(buffer)
            } else {
                empty_buffer()
            }
        },
    }
}

/// How long a client tries to connect, in seconds.
pub const CONNECT_TIMEOUT_SECS: u64 = 30;

/// How long a client waits for a response, in seconds.
pub const TIMEOUT_SECS: u64 = 60;

/// A user agent that no header can carry.
#[derive(Clone, Copy, Debug, PartialEq, Eq, Structural)]
pub struct InvalidUserAgent;

/// The settings of an HTTP client.
#[derive(Debug)]
pub struct ReqwestHttpClient {
    user_agent: Option<HeaderValue>,
    connect_timeout_secs: u64,
    timeout_secs: u64,
}

impl ReqwestHttpClient {
    /// What the user agent holds, if there is one.
    pub closed spec fn agent(&self) -> Option<HeldValue> {
        match self.user_agent {
            Some(value) => Some(held(value)),
            None => None,
        }
    }

    /// How long the client tries to connect, and how long it waits for a response.
    pub closed spec fn timeouts(&self) -> (u64, u64) {
        (self.connect_timeout_secs, self.timeout_secs)
    }

    /// Whether the client has the given user agent, and the timeouts that all clients
    /// have.
    pub open spec fn is_set_up(&self, agent: Seq<char>) -> bool {
        &&& self.agent() == Some(unmarked(utf8::encode_utf8(agent)))
        &&& self.timeouts() == (CONNECT_TIMEOUT_SECS, TIMEOUT_SECS)
    }

    /// Create a new HTTP client with the default user agent.
    pub fn new() -> (client: Result<Self, InvalidUserAgent>)
        ensures
            client is Ok,
            client->Ok_0.is_set_up("gpui-client"@),
    {
        proof {
            reveal_strlit("gpui-client");
            utf8::is_ascii_chars_encode_utf8("gpui-client"@);
        }
        Self::with_user_agent("gpui-client")
    }

    /// Create a new HTTP client with a custom user agent.
    pub fn with_user_agent(agent: &str) -> (client: Result<Self, InvalidUserAgent>)
        ensures
            match client {
                Ok(client) => permitted(utf8::encode_utf8(agent@)) && client.is_set_up(agent@),
                Err(_) => !permitted(utf8::encode_utf8(agent@)),
            },
    {
        match header_value(agent) {
            Ok(value) => Ok(
                ReqwestHttpClient {
                    user_agent: Some(value),
                    connect_timeout_secs: CONNECT_TIMEOUT_SECS,
                    timeout_secs: TIMEOUT_SECS,
                },
            ),
            Err(_) => Err(InvalidUserAgent),
        }
    }

    /// The name of this kind of client.
    pub fn kind_name(&self) -> (name: &'static str)
        ensures
            name@ == "ReqwestHttpClient"@,
    {
        "ReqwestHttpClient"
    }

    /// The user agent.
    pub fn user_agent(&self) -> (agent: Option<&HeaderValue>)
        ensures
            match agent {
                Some(value) => self.agent() == Some(held(*value)),
                None => self.agent() is None,
            },
    {
        self.user_agent.as_ref()
    }

    /// How long the client tries to connect, in seconds.
    pub fn connect_timeout_secs(&self) -> (secs: u64)
        ensures
            secs == self.timeouts().0,
    {
        self.connect_timeout_secs
    }

    /// How long the client waits for a response, in seconds.
    pub fn timeout_secs(&self) -> (secs: u64)
        ensures
            secs == self.timeouts().1,
    {
        self.timeout_secs
    }

    /// The proxy: there is none.
    pub fn proxy(&self) -> (proxy: Option<&Url>)
        ensures
            proxy is None,
    {
        None
    }
}

impl Default for ReqwestHttpClient {
    fn default() -> (client: Self)
        ensures
            client.is_set_up("gpui-client"@),
    {
        Self::new().expect("Failed to create default HTTP client")
    }
}

/// Reducing headers to the last value of each name keeps all names, leaves each with
/// exactly one value, and changes nothing the second time.
pub proof fn law_one_value_per_name(headers: Map<Seq<char>, Seq<HeldValue>>)
    ensures
        last_values(headers).dom() == headers.dom(),
        forall|name: Seq<char>| #[trigger]
            headers.dom().contains(name) ==> last_values(headers)[name].len() == 1,
        last_values(last_values(headers)) == last_values(headers),
{
    assert(last_values(headers).dom() =~= headers.dom());
    assert(last_values(last_values(headers)) =~= last_values(headers));
}

/// Headers with one value per name are sent as they are.
pub proof fn law_single_values_are_sent(headers: Map<Seq<char>, Seq<HeldValue>>)
    requires
        forall|name: Seq<char>| #[trigger]
            headers.dom().contains(name) ==> headers[name].len() == 1,
    ensures
        last_values(headers) == headers,
{
    assert forall|name: Seq<char>| #[trigger] headers.dom().contains(name) implies last_values(
        headers,
    )[name] == headers[name] by {
        assert(seq![headers[name].last()] =~= headers[name]);
    }
    assert(last_values(headers) =~= headers);
}

/// Of a name with several values the one that was given last is sent, and no other; a
/// name that was not given is not sent.
pub proof fn law_the_last_value_is_sent(
    headers: Map<Seq<char>, Seq<HeldValue>>,
    name: Seq<char>,
    earlier: Seq<HeldValue>,
    last: HeldValue,
)
    ensures
        headers.dom().contains(name) && headers[name] == earlier.push(last) ==> last_values(
            headers,
        )[name] == seq![last],
        headers.dom().contains(name) <==> last_values(headers).dom().contains(name),
{
}

/// A response has the names that came in and no others, with as many values each, in
/// their order and of the same bytes, and none of them is marked as sensitive.
pub proof fn law_a_response_keeps_every_value(
    headers: Map<Seq<char>, Seq<HeldValue>>,
    name: Seq<char>,
)
    ensures
        all_unmarked(headers).dom().contains(name) <==> headers.dom().contains(name),
        headers.dom().contains(name) ==> {
            &&& all_unmarked(headers)[name].len() == headers[name].len()
            &&& forall|i: int|
                0 <= i < headers[name].len() ==> {
                    &&& (#[trigger] all_unmarked(headers)[name][i]).bytes == headers[name][i].bytes
                    &&& !all_unmarked(headers)[name][i].sensitive
                }
        },
{
}

/// A value may hold every byte but the control characters other than the tab, and a
/// header can be read anew exactly where its value may be held and its name has no
/// quotation mark.
pub proof fn law_control_characters_are_refused(name: Seq<char>, value: Seq<u8>)
    ensures
        permitted(value) <==> !exists|i: int|
            0 <= i < value.len() && (#[trigger] value[i] <= 8 || 10 <= value[i] <= 31 || value[i]
                == 127),
        legible(name, value) <==> permitted(value) && forall|i: int|
            0 <= i < name.len() ==> #[trigger] name[i] != '"',
{
    if forall|i: int| 0 <= i < name.len() ==> #[trigger] name[i] != '"' {
        assert(!name.contains('"'));
    }
    if !name.contains('"') {
        assert forall|i: int| 0 <= i < name.len() implies #[trigger] name[i] != '"' by {
            assert(name.contains(name[i]));
        }
    }
}

/// A body is sent whole or not at all: one at hand, or read to its end, byte for byte and
/// whatever its length; no byte of one that is missing or was not read to its end.
pub proof fn law_a_body_is_sent_whole_or_not_at_all(body: RequestBody)
    ensures
        body is Empty ==> body.sent().len() == 0,
        body matches RequestBody::Bytes(buffer) ==> body.sent() == buffer_bytes(buffer),
        body matches RequestBody::Read { buffer, complete } ==> {
            &&& complete ==> body.sent().len() == buffer@.len()
            &&& complete ==> forall|i: int|
                0 <= i < buffer@.len() ==> #[trigger] body.sent()[i] == buffer@[i]
            &&& !complete ==> body.sent().len() == 0
        },
{
}

/// A client that is set up sends the bytes of its user agent as they are, not marked as
/// sensitive, and gives up connecting after half a minute and waiting after a minute.
pub proof fn law_a_client_is_set_up_for_its_agent(client: ReqwestHttpClient, agent: Seq<char>)
    requires
        client.is_set_up(agent),
    ensures
        client.agent() is Some,
        client.agent()->0.bytes == utf8::encode_utf8(agent),
        !client.agent()->0.sensitive,
        client.timeouts().0 == 30,
        client.timeouts().1 == 60,
{
}

/// A value is held with all of its bytes and with its mark.
pub proof fn law_a_value_keeps_its_mark(value: HeaderValue)
    ensures
        held(value).bytes == value_bytes(value),
        held(value).sensitive == value_sensitive(value),
{
}

/// A list without headers amounts to none. One more header at the end of a list is one
/// more value for its name, after those that the name has, and changes no other name.
pub proof fn law_a_further_header_comes_last(
    entries: Seq<(&HeaderName, &HeaderValue)>,
    entry: (&HeaderName, &HeaderValue),
    other: Seq<char>,
)
    ensures
        ({
            let name = name_text(*entry.0);
            let before = collected(entries);
            let after = collected(entries.push(entry));
            &&& after.dom().contains(name)
            &&& before.dom().contains(name) ==> after[name] == before[name].push(held(*entry.1))
            &&& !before.dom().contains(name) ==> after[name] == seq![held(*entry.1)]
            &&& other != name ==> (after.dom().contains(other) <==> before.dom().contains(other))
            &&& other != name ==> after.dom().contains(other) ==> after[other] == before[other]
        }),
        !collected(Seq::empty()).dom().contains(other),
        !no_headers().dom().contains(other),
{
    let name = name_text(*entry.0);
    assert(entries.push(entry).drop_last() =~= entries);
    assert(entries.push(entry).last() == entry);
    lemma_names(entries);
    if !collected(entries).dom().contains(name) {
        assert(values_in(entries, name) =~= Seq::<HeldValue>::empty());
        assert(collected(entries.push(entry))[name] =~= seq![held(*entry.1)]);
    }
}

/// Where all headers can be read anew, none of them has a quotation mark in its name, nor
/// a value that may not be held.
pub proof fn law_one_illegible_header_spoils_all(
    headers: Map<Seq<char>, Seq<HeldValue>>,
    name: Seq<char>,
    i: int,
)
    requires
        headers.dom().contains(name),
        0 <= i < headers[name].len(),
        name.contains('"') || !permitted(headers[name][i].bytes),
    ensures
        !all_legible(headers),
{
    assert(!legible(name, headers[name][i].bytes));
}

/// Where no header has a quotation mark in its name, nor a value that may not be held, all
/// of them can be read anew.
pub proof fn law_legible_headers_spoil_nothing(headers: Map<Seq<char>, Seq<HeldValue>>)
    requires
        forall|name: Seq<char>, i: int|
            headers.dom().contains(name) && 0 <= i < headers[name].len() ==> !name.contains('"')
                && permitted((#[trigger] headers[name][i]).bytes),
    ensures
        all_legible(headers),
{
}

/// Headers are listed, refused and put together into a response by the collection and the
/// builder themselves, and by nothing else.
proof fn law_headers_are_handled_by_their_own<T>(
    headers: HeaderMap,
    entries: Vec<(&HeaderName, &HeaderValue)>,
    name: HeaderName,
    value: HeaderValue,
    status: u16,
    builders: Seq<Builder>,
    body: T,
    finished: Result<(Parts, T), http::Error>,
)
    ensures
        listed(headers, entries) ==> call_ensures(header_entries, (&headers,), entries),
        refused(headers, name, value) ==> exists|error: MaxSizeReached| #[trigger]
            call_ensures(with_header, (headers, &name, &value), Err(error)),
        built_up(status, entries@, builders) ==> builders.len() == entries@.len() + 1
            && call_ensures(start_response, (status,), builders[0]) && forall|i: int|
            0 <= i < entries@.len() ==> call_ensures(
                add_header,
                (builders[i], (#[trigger] entries@[i]).0, entries@[i].1),
                builders[i + 1],
            ),
        finishes_to(status, headers, body, finished) ==> exists|
            listing: Vec<(&HeaderName, &HeaderValue)>,
            builder: Builder,
        | #[trigger]
            call_ensures(header_entries, (&headers,), listing) && #[trigger] put_together(
                status,
                listing@,
                builder,
            ) && call_ensures(finish::<T>, (builder, body), finished),
{
}

} // verus!
