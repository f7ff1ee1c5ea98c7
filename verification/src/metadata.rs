//! gRPC request metadata made from user-supplied headers.

use std::collections::hash_map;
use std::collections::HashMap;
use tonic::metadata::{Ascii, MetadataKey, MetadataMap, MetadataValue};
use vstd::prelude::*;
use vstd::std_specs::hash::spec_hash_map_iter;
use vstd::std_specs::iter::IteratorSpec;
use vstd::utf8::encode_utf8;

verus! {

/// The number of header names that gRPC metadata can hold and still is certain to
/// take another header, under whichever name.
///
/// The table behind a `MetadataMap` has at most 32768 slots and panics where it
/// would have to grow beyond that. With names that collide it wants to grow as
/// soon as a fifth of its slots are taken.
pub const MAX_HEADERS: usize = 6553;

/// The length of the longest header name, in bytes.
pub const MAX_NAME_LEN: usize = 65535;

/// One header: its name and its value.
pub type HeaderView = (Seq<char>, Seq<char>);

/// Is `c` a character of an HTTP token?
pub open spec fn is_token_char(c: char) -> bool {
    ||| '0' <= c <= '9'
    ||| 'A' <= c <= 'Z'
    ||| 'a' <= c <= 'z'
    ||| seq!['!', '#', '$', '%', '&', '\'', '*', '+', '-', '.', '^', '_', '`', '|', '~'].contains(c)
}

/// `c`, with an ASCII upper-case letter replaced by the lower-case one.
pub open spec fn lower_char(c: char) -> char {
    if 'A' <= c <= 'Z' {
        (c as u32 + 32) as char
    } else {
        c
    }
}

/// `name` in lower case, the form in which header names are stored and compared.
pub open spec fn lower(name: Seq<char>) -> Seq<char> {
    name.map_values(|c: char| lower_char(c))
}

/// Does `name` end in `-bin`, which marks a binary metadata field?
pub open spec fn is_binary_name(name: Seq<char>) -> bool {
    seq!['-', 'b', 'i', 'n'].is_suffix_of(name)
}

/// Can `name` be the name of an ASCII metadata field?
pub open spec fn valid_name(name: Seq<char>) -> bool {
    &&& 1 <= name.len() <= MAX_NAME_LEN
    &&& forall|i: int| 0 <= i < name.len() ==> is_token_char(#[trigger] name[i])
    &&& !is_binary_name(lower(name))
}

/// Can `c` stand in a header value on the wire? All but the control characters of
/// ASCII can, and of those the tab.
pub open spec fn is_wire_char(c: char) -> bool {
    c == '\t' || (c >= ' ' && c != '\x7f')
}

/// Can `b` stand in a header value on the wire?
pub open spec fn is_wire_byte(b: u8) -> bool {
    b == 9 || (b >= 32 && b != 127)
}

/// Is `c` a printable ASCII character?
pub open spec fn is_printable(c: char) -> bool {
    ' ' <= c <= '~'
}

/// Can `value` be sent as the value of a header? Values that hold a non-ASCII
/// character or a control character cannot.
pub open spec fn valid_value(value: Seq<char>) -> bool {
    forall|i: int| 0 <= i < value.len() ==> is_printable(#[trigger] value[i])
}

/// Can the header be sent as ASCII metadata?
pub open spec fn sendable(header: HeaderView) -> bool {
    valid_name(header.0) && valid_value(header.1)
}

/// The metadata that comes of `headers`, taken first to last: each header that can
/// be sent is entered under its lower-case name, as its one value, in the place of an
/// earlier one of that name, and the others are skipped.
pub open spec fn metadata_of(headers: Seq<HeaderView>) -> Map<Seq<char>, Seq<Seq<u8>>>
    decreases headers.len(),
{
    if headers.len() == 0 {
        Map::empty()
    } else {
        let rest = metadata_of(headers.drop_last());
        let header = headers.last();
        if sendable(header) {
            rest.insert(lower(header.0), seq![encode_utf8(header.1)])
        } else {
            rest
        }
    }
}

/// The names under which `headers` are sent: those, in lower case, of the headers
/// that can be sent.
pub open spec fn sent_names(headers: Map<String, String>) -> Set<Seq<char>> {
    headers.dom().filter(|name: String| sendable((name@, headers[name]@))).map(
        |name: String| lower(name@),
    )
}

/// Is `header` an entry of `headers`?
pub open spec fn is_entry(headers: Map<String, String>, header: HeaderView) -> bool {
    exists|name: String| #[trigger]
        headers.contains_key(name) && header == (name@, headers[name]@)
}

/// Is `walk` a walk through `headers`: every entry once, in some order?
pub open spec fn is_walk(headers: Map<String, String>, walk: Seq<HeaderView>) -> bool {
    &&& walk.len() == headers.len()
    &&& forall|i: int| 0 <= i < walk.len() ==> is_entry(headers, #[trigger] walk[i])
    &&& forall|name: String| #[trigger]
        headers.contains_key(name) ==> walk.contains((name@, headers[name]@))
    &&& forall|i: int, j: int|
        0 <= i < j < walk.len() ==> (#[trigger] walk[i]).0 != (#[trigger] walk[j]).0
}

/// Is `metadata` what some walk through `headers` leaves? A `HashMap` is walked in
/// no fixed order, which tells where two names differ only in case.
pub open spec fn carries(metadata: MetadataMap, headers: Map<String, String>) -> bool {
    exists|walk: Seq<HeaderView>| #[trigger]
        is_walk(headers, walk) && metadata_entries(metadata) == metadata_of(walk)
}

/// The text of a list of headers.
pub open spec fn header_views(headers: Seq<(String, String)>) -> Seq<HeaderView> {
    headers.map_values(|h: (String, String)| (h.0@, h.1@))
}

/// The metadata map of `tonic`. What it holds is told by [`metadata_entries`].
#[verifier::external_type_specification]
#[verifier::external_body]
pub struct ExMetadataMap(MetadataMap);

/// What a `MetadataMap` holds: for each lower-case name all values under it, in order.
pub uninterp spec fn metadata_entries(metadata: MetadataMap) -> Map<Seq<char>, Seq<Seq<u8>>>;

/// `MetadataMap::new` of `tonic`: a map that holds nothing.
#[verifier::external_body]
fn new_metadata() -> (metadata: MetadataMap)
    ensures
        metadata_entries(metadata).dom() == Set::<Seq<char>>::empty(),
{
    MetadataMap::new()
}

/// `MetadataKey::<Ascii>::from_bytes` of `tonic`, on the bytes of `name`: the name
/// in lower case where it is a valid ASCII metadata name, an error (`None`) where
/// it is not.
#[verifier::external_body]
fn metadata_key(name: &String) -> (key: Option<String>)
    ensures
        key is Some <==> valid_name(name@),
        key matches Some(k) ==> k@ == lower(name@),
{
    match MetadataKey::<Ascii>::from_bytes(name.as_bytes()) {
        Ok(key) => Some(key.as_str().to_string()),
        Err(_) => None,
    }
}

/// `MetadataValue::<Ascii>::try_from` of `tonic`, on a string: its UTF-8 bytes
/// where each character can stand in a header value, an error (`None`) where one
/// cannot. Characters beyond ASCII are let through.
#[verifier::external_body]
fn metadata_value(text: &String) -> (value: Option<Vec<u8>>)
    ensures
        value is Some <==> (forall|i: int|
            0 <= i < text@.len() ==> is_wire_char(#[trigger] text@[i])),
        value matches Some(v) ==> v@ == encode_utf8(text@),
{
    match MetadataValue::<Ascii>::try_from(text) {
        Ok(value) => Some(value.as_encoded_bytes().to_vec()),
        Err(_) => None,
    }
}

/// `MetadataMap::insert` of `tonic`: `value` takes the place of all values that the map
/// held under `key`, and nothing else changes.
///
/// The call takes its key and value parsed; they are parsed here, out of a name and
/// bytes that do parse. It panics on a map that cannot grow (see [`MAX_HEADERS`]).
#[verifier::external_body]
fn metadata_insert(metadata: &mut MetadataMap, key: &String, value: &Vec<u8>)
    requires
        metadata_entries(*old(metadata)).dom().finite(),
        metadata_entries(*old(metadata)).len() <= MAX_HEADERS,
        valid_name(key@),
        forall|i: int| 0 <= i < value@.len() ==> is_wire_byte(#[trigger] value@[i]),
    ensures
        metadata_entries(*final(metadata)) == metadata_entries(*old(metadata)).insert(
            lower(key@),
            seq![value@],
        ),
{
    let key = MetadataKey::<Ascii>::from_bytes(key.as_bytes()).unwrap();
    let value = MetadataValue::<Ascii>::try_from(value.as_slice()).unwrap();
    metadata.insert(key, value);
}

/// `HashMap::iter` of std: all entries, each once, in arbitrary order. Names are
/// told apart by their text.
#[verifier::external_body]
fn walk_headers<'a>(headers: &'a HashMap<String, String>) -> (walk: hash_map::Iter<
    'a,
    String,
    String,
>)
    ensures
        walk == spec_hash_map_iter(headers),
        walk.decrease() is Some,
        walk.initial_value_relation(&walk),
        forall|i: int, j: int|
            0 <= i < j < walk.remaining().len() ==> (#[trigger] walk.remaining()[i]).0@ != (
            #[trigger] walk.remaining()[j]).0@,
{
    headers.iter()
}

/// `MetadataMap::keys_len` of `tonic`: the number of names.
#[verifier::external_body]
fn metadata_len(metadata: &MetadataMap) -> (count: usize)
    ensures
        count == metadata_entries(*metadata).len(),
{
    metadata.keys_len()
}

/// The headers of a map, listed in the order in which the map happens to be walked.
pub fn list_headers(headers: &HashMap<String, String>) -> (list: Vec<(String, String)>)
    ensures
        is_walk(headers@, header_views(list@)),
{
    let mut list: Vec<(String, String)> = Vec::new();
    let walk = walk_headers(headers);
    for entry in it: walk
        invariant
            it.seq() == walk.remaining(),
            list@.len() == it.index(),
            forall|i: int|
                0 <= i < list@.len() ==> (#[trigger] list@[i]) == (
                    *it.seq()[i].0,
                    *it.seq()[i].1,
                ),
    {
        list.push((entry.0.clone(), entry.1.clone()));
    }
    proof {
        let seen = walk.remaining();
        let views = header_views(list@);
        assert forall|name: String| #[trigger] headers@.contains_key(name) implies views.contains(
            (name@, headers@[name]@),
        ) by {
            let i = seen.index_of((&name, &headers@[name]));
            assert(seen.contains((&name, &headers@[name])));
            assert(views[i] == (name@, headers@[name]@));
        }
        assert forall|i: int| 0 <= i < views.len() implies is_entry(
            headers@,
            #[trigger] views[i],
        ) by {
            assert(headers@.contains_key(*seen[i].0));
        }
        assert forall|i: int, j: int| 0 <= i < j < views.len() implies (#[trigger] views[i]).0 != (
        #[trigger] views[j]).0 by {
            assert(seen[i].0@ != seen[j].0@);
        }
    }
    list
}

/// Lower case is kept by lower case, and it changes neither that a name is valid nor
/// what it is stored as.
proof fn lemma_lower(name: Seq<char>)
    ensures
        lower(lower(name)) == lower(name),
        valid_name(name) ==> valid_name(lower(name)),
{
    assert(lower(lower(name)) =~= lower(name));
    if valid_name(name) {
        assert forall|i: int| 0 <= i < lower(name).len() implies is_token_char(
            #[trigger] lower(name)[i],
        ) by {
            assert(is_token_char(name[i]));
        }
    }
}

/// Metadata is finite, and each header more leaves it at least as large.
proof fn lemma_metadata_grows(headers: Seq<HeaderView>, i: int)
    requires
        0 <= i <= headers.len(),
    ensures
        metadata_of(headers.take(i)).dom().finite(),
        metadata_of(headers.take(i)).len() <= metadata_of(headers).len(),
        metadata_of(headers).dom().finite(),
    decreases headers.len(),
{
    if i == headers.len() {
        assert(headers.take(i) =~= headers);
        if headers.len() > 0 {
            lemma_metadata_grows(headers.drop_last(), i - 1);
        }
    } else {
        assert(headers.drop_last().take(i) =~= headers.take(i));
        lemma_metadata_grows(headers.drop_last(), i);
    }
}

/// A walk through `headers` leaves metadata under exactly the names that are sent.
proof fn lemma_walk_names(headers: Map<String, String>, walk: Seq<HeaderView>)
    requires
        is_walk(headers, walk),
    ensures
        metadata_of(walk).dom() == sent_names(headers),
        metadata_of(walk).len() == sent_names(headers).len(),
{
    let can_send = |name: String| sendable((name@, headers[name]@));
    let sent = headers.dom().filter(can_send);
    assert forall|key: Seq<char>| #[trigger]
        metadata_of(walk).dom().contains(key) <==> sent_names(headers).contains(key) by {
        law_metadata_names(walk, key);
        if metadata_of(walk).contains_key(key) {
            let i = choose|i: int|
                0 <= i < walk.len() && sendable(#[trigger] walk[i]) && lower(walk[i].0) == key;
            assert(is_entry(headers, walk[i]));
            let name = choose|name: String| #[trigger]
                headers.contains_key(name) && walk[i] == (name@, headers[name]@);
            assert(sent.contains(name) && lower(name@) == key);
        }
        if sent_names(headers).contains(key) {
            let name = choose|name: String| #[trigger] sent.contains(name) && lower(name@) == key;
            assert(headers.contains_key(name));
            assert(walk.contains((name@, headers[name]@)));
            let i = walk.index_of((name@, headers[name]@));
            assert(sendable(walk[i]) && lower(walk[i].0) == key);
        }
    }
    assert(metadata_of(walk).dom() =~= sent_names(headers));
}

/// The bytes of a printable text can stand in a header value.
proof fn lemma_printable_bytes(value: Seq<char>)
    requires
        valid_value(value),
    ensures
        forall|i: int|
            0 <= i < encode_utf8(value).len() ==> is_wire_byte(#[trigger] encode_utf8(value)[i]),
        forall|i: int| 0 <= i < value.len() ==> is_wire_char(#[trigger] value[i]),
{
    assert forall|i: int| 0 <= i < value.len() implies is_wire_char(#[trigger] value[i]) by {
        assert(is_printable(value[i]));
    }
    assert(vstd::utf8::is_ascii_chars(value));
    vstd::utf8::is_ascii_chars_encode_utf8(value);
    assert forall|i: int| 0 <= i < encode_utf8(value).len() implies is_wire_byte(
        #[trigger] encode_utf8(value)[i],
    ) by {
        assert(is_printable(value[i]));
    }
}

/// Can `value` be sent as the value of a header (see [`valid_value`])?
fn is_valid_value(value: &String) -> (valid: bool)
    ensures
        valid == valid_value(value@),
{
    let text = value.as_str();
    if !text.is_ascii() {
        return false;
    }
    let bytes = text.as_bytes();
    for i in 0..bytes.len()
        invariant
            bytes@.len() == value@.len(),
            forall|j: int| 0 <= j < bytes@.len() ==> #[trigger] bytes@[j] == value@[j] as u8,
            vstd::utf8::is_ascii_chars(value@),
            forall|j: int| 0 <= j < i ==> is_printable(#[trigger] value@[j]),
    {
        assert(bytes@[i as int] == value@[i as int] as u8);
        if bytes[i] < 32 || bytes[i] > 126 {
            assert(!is_printable(value@[i as int]));
            return false;
        }
    }
    true
}

/// Enters a header into the metadata if it can be sent, and skips it if not.
fn add_header(metadata: &mut MetadataMap, name: &String, value: &String)
    requires
        metadata_entries(*old(metadata)).dom().finite(),
        metadata_entries(*old(metadata)).len() <= MAX_HEADERS,
    ensures
        metadata_entries(*final(metadata)) == (if sendable((name@, value@)) {
            metadata_entries(*old(metadata)).insert(lower(name@), seq![encode_utf8(value@)])
        } else {
            metadata_entries(*old(metadata))
        }),
{
    proof {
        lemma_lower(name@);
        if valid_value(value@) {
            lemma_printable_bytes(value@);
        }
    }
    if let (Some(key), Some(bytes)) = (metadata_key(name), metadata_value(value)) {
        if is_valid_value(value) {
            metadata_insert(metadata, &key, &bytes);
        }
    }
}

/// The metadata that comes of a list of headers (see [`metadata_of`]).
pub fn list_to_metadata(headers: &Vec<(String, String)>) -> (metadata: MetadataMap)
    requires
        metadata_of(header_views(headers@)).len() <= MAX_HEADERS,
    ensures
        metadata_entries(metadata) == metadata_of(header_views(headers@)),
{
    let mut metadata = new_metadata();
    let ghost views = header_views(headers@);
    assert(metadata_entries(metadata) =~= metadata_of(views.take(0)));
    for i in 0..headers.len()
        invariant
            views == header_views(headers@),
            metadata_of(views).len() <= MAX_HEADERS,
            metadata_entries(metadata) == metadata_of(views.take(i as int)),
    {
        proof {
            lemma_metadata_grows(views, i as int);
            assert(views.take(i + 1).drop_last() =~= views.take(i as int));
        }
        add_header(&mut metadata, &headers[i].0, &headers[i].1);
    }
    assert(views.take(headers@.len() as int) =~= views);
    metadata
}

/// Is the metadata that comes of a list of headers certain to fit into a `MetadataMap`?
pub fn list_fits(headers: &Vec<(String, String)>) -> (fits: bool)
    ensures
        fits == (metadata_of(header_views(headers@)).len() <= MAX_HEADERS),
{
    let mut metadata = new_metadata();
    let ghost views = header_views(headers@);
    assert(metadata_entries(metadata) =~= metadata_of(views.take(0)));
    for i in 0..headers.len()
        invariant
            views == header_views(headers@),
            metadata_entries(metadata) == metadata_of(views.take(i as int)),
    {
        proof {
            lemma_metadata_grows(views, i as int);
            assert(views.take(i + 1).drop_last() =~= views.take(i as int));
        }
        if metadata_len(&metadata) > MAX_HEADERS {
            return false;
        }
        add_header(&mut metadata, &headers[i].0, &headers[i].1);
    }
    assert(views.take(headers@.len() as int) =~= views);
    metadata_len(&metadata) <= MAX_HEADERS
}

/// Is the metadata for `headers` certain to fit into a `MetadataMap`? Headers that are
/// skipped do not count.
pub fn headers_fit(headers: &HashMap<String, String>) -> (fits: bool)
    ensures
        fits == (sent_names(headers@).len() <= MAX_HEADERS),
{
    let list = list_headers(headers);
    proof {
        lemma_walk_names(headers@, header_views(list@));
    }
    list_fits(&list)
}

/// The metadata that an OTLP gRPC exporter sends for `headers`. A header whose name
/// or value is not valid (non-ASCII, control characters and the like) is silently
/// skipped: this is best effort, not validation.
pub fn headers_to_metadata(headers: &HashMap<String, String>) -> (metadata: MetadataMap)
    requires
        sent_names(headers@).len() <= MAX_HEADERS,
    ensures
        carries(metadata, headers@),
        metadata_entries(metadata).dom() == sent_names(headers@),
        forall|name: Seq<char>| #[trigger]
            metadata_entries(metadata).contains_key(name) ==> metadata_entries(
                metadata,
            )[name].len() == 1,
{
    let list = list_headers(headers);
    proof {
        let walk = header_views(list@);
        lemma_walk_names(headers@, walk);
        assert forall|name: Seq<char>| #[trigger] metadata_of(walk).contains_key(name) implies
            metadata_of(walk)[name].len() == 1 by {
            law_one_value_for_each_name(walk, name);
        }
    }
    list_to_metadata(&list)
}

/// A name is in the metadata just where a header that can be sent has that name, in
/// any case. So nothing that cannot be sent gets in, and every name that can be sent
/// does.
pub proof fn law_metadata_names(headers: Seq<HeaderView>, name: Seq<char>)
    ensures
        metadata_of(headers).contains_key(name) <==> exists|i: int|
            0 <= i < headers.len() && sendable(#[trigger] headers[i]) && lower(headers[i].0)
                == name,
    decreases headers.len(),
{
    if headers.len() > 0 {
        let init = headers.drop_last();
        law_metadata_names(init, name);
        if metadata_of(init).contains_key(name) {
            let i = choose|i: int|
                0 <= i < init.len() && sendable(#[trigger] init[i]) && lower(init[i].0) == name;
            assert(sendable(headers[i]) && lower(headers[i].0) == name);
        }
        if exists|i: int|
            0 <= i < headers.len() && sendable(#[trigger] headers[i]) && lower(headers[i].0)
                == name {
            let i = choose|i: int|
                0 <= i < headers.len() && sendable(#[trigger] headers[i]) && lower(headers[i].0)
                    == name;
            if i < init.len() {
                assert(sendable(init[i]) && lower(init[i].0) == name);
            }
        }
    }
}

/// Of the headers that can be sent under one name the last one gives the value.
pub proof fn law_last_header_wins(headers: Seq<HeaderView>, i: int)
    requires
        0 <= i < headers.len(),
        sendable(headers[i]),
        forall|j: int|
            i < j < headers.len() && sendable(#[trigger] headers[j]) ==> lower(headers[j].0)
                != lower(headers[i].0),
    ensures
        metadata_of(headers).contains_key(lower(headers[i].0)),
        metadata_of(headers)[lower(headers[i].0)] == seq![encode_utf8(headers[i].1)],
    decreases headers.len(),
{
    let init = headers.drop_last();
    if i < init.len() {
        assert forall|j: int| i < j < init.len() && sendable(#[trigger] init[j]) implies lower(
            init[j].0,
        ) != lower(init[i].0) by {
            assert(sendable(headers[j]));
        }
        law_last_header_wins(init, i);
        assert(headers.last() == headers[headers.len() - 1]);
    }
}

/// No name is sent with more than one value, nor with none.
pub proof fn law_one_value_for_each_name(headers: Seq<HeaderView>, name: Seq<char>)
    ensures
        metadata_of(headers).contains_key(name) ==> metadata_of(headers)[name].len() == 1,
    decreases headers.len(),
{
    if headers.len() > 0 {
        law_one_value_for_each_name(headers.drop_last(), name);
    }
}

/// Do no two headers that can be sent have names that differ only in case?
pub open spec fn distinct_names(headers: Map<String, String>) -> bool {
    forall|a: String, b: String|
        #![trigger headers.contains_key(a), headers.contains_key(b)]
        headers.contains_key(a) && headers.contains_key(b) && sendable((a@, headers[a]@))
            && sendable((b@, headers[b]@)) && lower(a@) == lower(b@) ==> a@ == b@
}

/// Where no two names differ only in case, every header that can be sent is sent, with
/// its own value, and nothing else is: the metadata does not depend on the order in
/// which the headers are walked.
pub proof fn law_metadata_is_settled(headers: Map<String, String>, metadata: MetadataMap)
    requires
        distinct_names(headers),
        carries(metadata, headers),
    ensures
        forall|name: String| #[trigger]
            headers.contains_key(name) && sendable((name@, headers[name]@)) ==> {
                &&& metadata_entries(metadata).contains_key(lower(name@))
                &&& metadata_entries(metadata)[lower(name@)] == seq![encode_utf8(headers[name]@)]
            },
        forall|key: Seq<char>| #[trigger]
            metadata_entries(metadata).contains_key(key) ==> exists|name: String| #[trigger]
                headers.contains_key(name) && sendable((name@, headers[name]@)) && lower(name@)
                    == key,
{
    let walk = choose|walk: Seq<HeaderView>| #[trigger]
        is_walk(headers, walk) && metadata_entries(metadata) == metadata_of(walk);
    assert forall|name: String| #[trigger]
        headers.contains_key(name) && sendable((name@, headers[name]@)) implies {
        &&& metadata_entries(metadata).contains_key(lower(name@))
        &&& metadata_entries(metadata)[lower(name@)] == seq![encode_utf8(headers[name]@)]
    } by {
        assert(walk.contains((name@, headers[name]@)));
        let i = walk.index_of((name@, headers[name]@));
        assert forall|j: int| i < j < walk.len() && sendable(#[trigger] walk[j]) implies lower(
            walk[j].0,
        ) != lower(walk[i].0) by {
            assert(is_entry(headers, walk[j]));
            let other = choose|other: String| #[trigger]
                headers.contains_key(other) && walk[j] == (other@, headers[other]@);
            assert(walk[i].0 != walk[j].0);
        }
        law_last_header_wins(walk, i);
    }
    assert forall|key: Seq<char>| #[trigger]
        metadata_entries(metadata).contains_key(key) implies exists|name: String| #[trigger]
        headers.contains_key(name) && sendable((name@, headers[name]@)) && lower(name@) == key by {
        law_metadata_names(walk, key);
        let i = choose|i: int|
            0 <= i < walk.len() && sendable(#[trigger] walk[i]) && lower(walk[i].0) == key;
        assert(is_entry(headers, walk[i]));
    }
}

/// Is `more` made of `headers` and any number of headers that cannot be sent?
pub open spec fn adds_only_invalid(
    headers: Map<String, String>,
    more: Map<String, String>,
) -> bool {
    &&& forall|name: String| #[trigger]
        headers.contains_key(name) ==> more.contains_key(name) && more[name] == headers[name]
    &&& forall|name: String| #[trigger]
        more.contains_key(name) && !headers.contains_key(name) ==> !sendable(
            (name@, more[name]@),
        )
}

/// Headers that differ only in what cannot be sent give the same metadata, where no two
/// names differ only in case.
proof fn lemma_same_sent(
    headers: Map<String, String>,
    more: Map<String, String>,
    first: MetadataMap,
    second: MetadataMap,
)
    requires
        adds_only_invalid(headers, more),
        distinct_names(headers),
        distinct_names(more),
        carries(first, headers),
        carries(second, more),
    ensures
        metadata_entries(first) == metadata_entries(second),
{
    law_metadata_is_settled(headers, first);
    law_metadata_is_settled(more, second);
    let a = metadata_entries(first);
    let b = metadata_entries(second);
    assert forall|key: Seq<char>| #[trigger] a.contains_key(key) implies b.contains_key(key)
        && a[key] == b[key] by {
        let name = choose|name: String| #[trigger]
            headers.contains_key(name) && sendable((name@, headers[name]@)) && lower(name@) == key;
        assert(more.contains_key(name) && more[name] == headers[name]);
    }
    assert forall|key: Seq<char>| #[trigger] b.contains_key(key) implies a.contains_key(key) by {
        let name = choose|name: String| #[trigger]
            more.contains_key(name) && sendable((name@, more[name]@)) && lower(name@) == key;
        assert(headers.contains_key(name));
    }
    assert(a =~= b);
}

/// Where no two names differ only in case, the same headers always give the same
/// metadata.
pub proof fn law_metadata_is_unique(
    headers: Map<String, String>,
    first: MetadataMap,
    second: MetadataMap,
)
    requires
        distinct_names(headers),
        carries(first, headers),
        carries(second, headers),
    ensures
        metadata_entries(first) == metadata_entries(second),
{
    lemma_same_sent(headers, headers, first, second);
}

/// No headers, no metadata.
pub proof fn law_no_headers_no_metadata(metadata: MetadataMap)
    requires
        carries(metadata, Map::<String, String>::empty()),
    ensures
        metadata_entries(metadata) == Map::<Seq<char>, Seq<Seq<u8>>>::empty(),
{
}

/// Leaving out headers that cannot be sent changes nothing.
proof fn lemma_metadata_of_kept(headers: Seq<HeaderView>, keep: spec_fn(HeaderView) -> bool)
    requires
        forall|i: int| 0 <= i < headers.len() && sendable(#[trigger] headers[i]) ==> keep(headers[i]),
    ensures
        metadata_of(headers.filter(keep)) == metadata_of(headers),
    decreases headers.len(),
{
    reveal(Seq::filter);
    if headers.len() > 0 {
        let init = headers.drop_last();
        assert forall|i: int| 0 <= i < init.len() && sendable(#[trigger] init[i]) implies keep(
            init[i],
        ) by {
            assert(sendable(headers[i]));
        }
        lemma_metadata_of_kept(init, keep);
        assert(headers.last() == headers[headers.len() - 1]);
        if keep(headers.last()) {
            assert(headers.filter(keep).drop_last() =~= init.filter(keep));
        }
    }
}

/// A header that cannot be sent changes nothing, wherever among the others it falls.
pub proof fn law_invalid_headers_are_skipped(headers: Seq<HeaderView>)
    ensures
        metadata_of(headers) == metadata_of(headers.filter(|header: HeaderView| sendable(header))),
{
    lemma_metadata_of_kept(headers, |header: HeaderView| sendable(header));
}

/// Headers at the end that cannot be sent change nothing.
proof fn lemma_metadata_of_more(headers: Seq<HeaderView>, more: Seq<HeaderView>)
    requires
        forall|i: int| 0 <= i < more.len() ==> !sendable(#[trigger] more[i]),
    ensures
        metadata_of(headers + more) == metadata_of(headers),
    decreases more.len(),
{
    if more.len() == 0 {
        assert(headers + more =~= headers);
    } else {
        assert forall|i: int| 0 <= i < more.drop_last().len() implies !sendable(
            #[trigger] more.drop_last()[i],
        ) by {
            assert(!sendable(more[i]));
        }
        lemma_metadata_of_more(headers, more.drop_last());
        assert((headers + more).drop_last() =~= headers + more.drop_last());
        assert((headers + more).last() == more[more.len() - 1]);
    }
}

/// What is left of distinct headers is distinct.
proof fn lemma_filter_distinct(headers: Seq<HeaderView>, keep: spec_fn(HeaderView) -> bool)
    requires
        headers.no_duplicates(),
    ensures
        headers.filter(keep).no_duplicates(),
        forall|header: HeaderView| #[trigger]
            headers.filter(keep).contains(header) <==> headers.contains(header) && keep(header),
    decreases headers.len(),
{
    reveal(Seq::filter);
    if headers.len() > 0 {
        let init = headers.drop_last();
        let kept = init.filter(keep);
        lemma_filter_distinct(init, keep);
        assert forall|header: HeaderView| #[trigger]
            headers.filter(keep).contains(header) <==> headers.contains(header) && keep(
                header,
            ) by {
            if headers.contains(header) && keep(header) {
                let i = headers.index_of(header);
                if i < init.len() {
                    assert(init[i] == header);
                    assert(kept.contains(header));
                    let j = kept.index_of(header);
                    assert(headers.filter(keep)[j] == header);
                } else {
                    assert(headers.filter(keep).last() == header);
                }
            }
            if headers.filter(keep).contains(header) {
                let j = headers.filter(keep).index_of(header);
                if j < kept.len() {
                    assert(kept[j] == header);
                    assert(kept.contains(header));
                    let i = init.index_of(header);
                    assert(headers[i] == header);
                } else {
                    assert(headers[headers.len() - 1] == header);
                }
            }
        }
        assert forall|i: int, j: int|
            0 <= i < headers.filter(keep).len() && 0 <= j < headers.filter(keep).len() && i
                != j implies headers.filter(keep)[i] != headers.filter(keep)[j] by {
            assert forall|k: int| 0 <= k < kept.len() implies #[trigger] kept[k]
                != headers.last() by {
                assert(kept.contains(kept[k]));
                let n = init.index_of(kept[k]);
                assert(headers[n] == kept[k]);
            }
        }
    }
}

/// Are the names of `headers` told apart by their text?
spec fn told_apart_by_text(headers: Map<String, String>) -> bool {
    forall|a: String, b: String|
        #![trigger headers.contains_key(a), headers.contains_key(b)]
        headers.contains_key(a) && headers.contains_key(b) && a@ == b@ ==> a == b
}

/// Headers that can be walked have names told apart by their text, and the walk holds
/// exactly their entries.
proof fn lemma_walked(headers: Map<String, String>, walk: Seq<HeaderView>)
    requires
        headers.dom().finite(),
        is_walk(headers, walk),
    ensures
        told_apart_by_text(headers),
        walk.no_duplicates(),
        forall|header: HeaderView| #[trigger]
            walk.contains(header) <==> is_entry(headers, header),
{
    let entry = |name: String| (name@, headers[name]@);
    assert forall|header: HeaderView| #[trigger]
        walk.contains(header) <==> is_entry(headers, header) by {
        if walk.contains(header) {
            assert(is_entry(headers, walk[walk.index_of(header)]));
        }
    }
    walk.unique_seq_to_set();
    assert forall|a: String, b: String|
        #![trigger headers.contains_key(a), headers.contains_key(b)]
        headers.contains_key(a) && headers.contains_key(b) && a@ == b@ implies a == b by {
        assert(walk.contains(entry(a)) && walk.contains(entry(b)));
        let i = walk.index_of(entry(a));
        let j = walk.index_of(entry(b));
        assert(walk[i].0 == walk[j].0);
        assert(i == j);
        if a != b {
            let rest = headers.dom().remove(a);
            assert forall|header: HeaderView| #[trigger]
                walk.to_set().contains(header) <==> rest.map(entry).contains(header) by {
                if walk.contains(header) {
                    let name = choose|name: String| #[trigger]
                        headers.contains_key(name) && header == (name@, headers[name]@);
                    let other = if name == a {
                        b
                    } else {
                        name
                    };
                    assert(rest.contains(other) && entry(other) == header);
                }
                if rest.map(entry).contains(header) {
                    let name = choose|name: String| #[trigger]
                        rest.contains(name) && entry(name) == header;
                    assert(headers.contains_key(name));
                }
            }
            assert(rest.map(entry) =~= walk.to_set());
            vstd::set_lib::lemma_map_size_bound(rest, walk.to_set(), entry);
        }
    }
}

/// Distinct headers that are exactly the entries of `headers` are a walk through them.
proof fn lemma_walks(headers: Map<String, String>, walk: Seq<HeaderView>)
    requires
        headers.dom().finite(),
        told_apart_by_text(headers),
        walk.no_duplicates(),
        forall|header: HeaderView| #[trigger]
            walk.contains(header) <==> is_entry(headers, header),
    ensures
        is_walk(headers, walk),
{
    let entry = |name: String| (name@, headers[name]@);
    assert forall|i: int| 0 <= i < walk.len() implies is_entry(headers, #[trigger] walk[i]) by {
        assert(walk.contains(walk[i]));
    }
    assert forall|name: String| #[trigger] headers.contains_key(name) implies walk.contains(
        (name@, headers[name]@),
    ) by {
        assert(is_entry(headers, (name@, headers[name]@)));
    }
    assert forall|i: int, j: int| 0 <= i < j < walk.len() implies (#[trigger] walk[i]).0 != (
    #[trigger] walk[j]).0 by {
        assert(is_entry(headers, walk[i]) && is_entry(headers, walk[j]));
        let a = choose|a: String| #[trigger]
            headers.contains_key(a) && walk[i] == (a@, headers[a]@);
        let b = choose|b: String| #[trigger]
            headers.contains_key(b) && walk[j] == (b@, headers[b]@);
        assert(a@ == b@ ==> a == b);
    }
    assert forall|header: HeaderView| #[trigger]
        walk.to_set().contains(header) <==> headers.dom().map(entry).contains(header) by {
        if walk.contains(header) {
            let name = choose|name: String| #[trigger]
                headers.contains_key(name) && header == (name@, headers[name]@);
            assert(headers.dom().contains(name) && entry(name) == header);
        }
        if headers.dom().map(entry).contains(header) {
            let name = choose|name: String| #[trigger]
                headers.dom().contains(name) && entry(name) == header;
            assert(headers.contains_key(name));
        }
    }
    assert(headers.dom().map(entry) =~= walk.to_set());
    walk.unique_seq_to_set();
    assert forall|a: String, b: String|
        #![trigger headers.dom().contains(a), headers.dom().contains(b)]
        headers.dom().contains(a) && headers.dom().contains(b) && entry(a) == entry(
            b,
        ) implies a == b by {
        assert(headers.contains_key(a) && headers.contains_key(b));
    }
    vstd::set_lib::lemma_map_size(headers.dom(), walk.to_set(), entry);
}

/// Can `headers` be walked? Those of a `HashMap` can.
pub open spec fn has_walk(headers: Map<String, String>) -> bool {
    &&& headers.dom().finite()
    &&& exists|walk: Seq<HeaderView>| #[trigger] is_walk(headers, walk)
}

/// Headers that cannot be sent keep each outcome possible, and make no other possible.
proof fn lemma_same_outcomes(
    headers: Map<String, String>,
    more: Map<String, String>,
    metadata: MetadataMap,
)
    requires
        adds_only_invalid(headers, more),
        has_walk(more),
    ensures
        carries(metadata, headers) <==> carries(metadata, more),
{
    assert forall|name: String| headers.dom().contains(name) implies more.dom().contains(name) by {
        assert(headers.contains_key(name));
    }
    assert(headers.dom().subset_of(more.dom()));
    vstd::set_lib::lemma_len_subset(headers.dom(), more.dom());
    assert forall|header: HeaderView| #[trigger] is_entry(headers, header) implies is_entry(
        more,
        header,
    ) by {
        let name = choose|name: String| #[trigger]
            headers.contains_key(name) && header == (name@, headers[name]@);
        assert(more.contains_key(name));
    }
    assert forall|header: HeaderView| #[trigger]
        is_entry(more, header) && sendable(header) implies is_entry(headers, header) by {
        let name = choose|name: String| #[trigger]
            more.contains_key(name) && header == (name@, more[name]@);
        assert(headers.contains_key(name));
    }
    let some_walk = choose|walk: Seq<HeaderView>| #[trigger] is_walk(more, walk);
    lemma_walked(more, some_walk);
    assert(told_apart_by_text(headers)) by {
        assert forall|a: String, b: String|
            #![trigger headers.contains_key(a), headers.contains_key(b)]
            headers.contains_key(a) && headers.contains_key(b) && a@ == b@ implies a == b by {
            assert(more.contains_key(a) && more.contains_key(b));
        }
    }
    if carries(metadata, more) {
        let walk = choose|walk: Seq<HeaderView>| #[trigger]
            is_walk(more, walk) && metadata_entries(metadata) == metadata_of(walk);
        let keep = |header: HeaderView| is_entry(headers, header);
        lemma_walked(more, walk);
        lemma_filter_distinct(walk, keep);
        lemma_walks(headers, walk.filter(keep));
        lemma_metadata_of_kept(walk, keep);
    }
    if carries(metadata, headers) {
        let walk = choose|walk: Seq<HeaderView>| #[trigger]
            is_walk(headers, walk) && metadata_entries(metadata) == metadata_of(walk);
        let leave = |header: HeaderView| !is_entry(headers, header);
        let added = some_walk.filter(leave);
        lemma_walked(headers, walk);
        lemma_filter_distinct(some_walk, leave);
        assert forall|i: int| 0 <= i < added.len() implies !sendable(#[trigger] added[i])
            && !is_entry(headers, added[i]) by {
            assert(added.contains(added[i]));
        }
        assert forall|header: HeaderView| #[trigger]
            (walk + added).contains(header) <==> is_entry(more, header) by {
            if is_entry(headers, header) {
                assert((walk + added)[walk.index_of(header)] == header);
            } else if is_entry(more, header) {
                assert(added.contains(header));
                assert((walk + added)[walk.len() + added.index_of(header)] == header);
            }
            if (walk + added).contains(header) {
                let i = (walk + added).index_of(header);
                if i < walk.len() {
                    assert(walk.contains(walk[i]));
                } else {
                    assert(added.contains(added[i - walk.len()]));
                }
            }
        }
        assert((walk + added).no_duplicates()) by {
            assert forall|i: int| 0 <= i < walk.len() implies is_entry(
                headers,
                #[trigger] walk[i],
            ) by {
                assert(walk.contains(walk[i]));
            }
        }
        lemma_walks(more, walk + added);
        lemma_metadata_of_more(walk, added);
    }
}

/// Adding headers that cannot be sent, however many, leaves the names that are sent and so
/// whether they fit, and it leaves which metadata may come of the headers. Where no two
/// names differ only in case that is one only.
pub proof fn law_invalid_headers_change_nothing(
    headers: Map<String, String>,
    more: Map<String, String>,
)
    requires
        adds_only_invalid(headers, more),
    ensures
        sent_names(more) == sent_names(headers),
        has_walk(more) ==> forall|metadata: MetadataMap|
            #![trigger carries(metadata, headers)]
            #![trigger carries(metadata, more)]
            carries(metadata, headers) <==> carries(metadata, more),
        distinct_names(headers) ==> forall|first: MetadataMap, second: MetadataMap|
            #![trigger carries(first, headers), carries(second, more)]
            carries(first, headers) && carries(second, more) ==> metadata_entries(first)
                == metadata_entries(second),
{
    let sent = headers.dom().filter(|name: String| sendable((name@, headers[name]@)));
    let sent_of_more = more.dom().filter(|name: String| sendable((name@, more[name]@)));
    assert forall|name: String| #[trigger] sent.contains(name) <==> sent_of_more.contains(name) by {
        if sent.contains(name) {
            assert(headers.contains_key(name));
        }
        if sent_of_more.contains(name) {
            assert(more.contains_key(name));
        }
    }
    assert(sent =~= sent_of_more);
    if has_walk(more) {
        assert forall|metadata: MetadataMap|
            #![trigger carries(metadata, headers)]
            #![trigger carries(metadata, more)]
            carries(metadata, headers) <==> carries(metadata, more) by {
            lemma_same_outcomes(headers, more, metadata);
        }
    }
    if distinct_names(headers) {
        assert(distinct_names(more)) by {
            assert forall|a: String, b: String|
                #![trigger more.contains_key(a), more.contains_key(b)]
                more.contains_key(a) && more.contains_key(b) && sendable((a@, more[a]@))
                    && sendable((b@, more[b]@)) && lower(a@) == lower(b@) implies a@ == b@ by {
                assert(headers.contains_key(a) && headers.contains_key(b));
            }
        }
        assert forall|first: MetadataMap, second: MetadataMap|
            #![trigger carries(first, headers), carries(second, more)]
            carries(first, headers) && carries(second, more) implies metadata_entries(first)
            == metadata_entries(second) by {
            lemma_same_sent(headers, more, first, second);
        }
    }
}

/// A value can be sent just where each of its characters lies between the space and the
/// tilde. So the padding of base64 does not keep credentials from being sent, nor does any
/// other punctuation, nor a length.
pub proof fn law_printable_values_can_be_sent(value: Seq<char>)
    ensures
        valid_value(value) <==> forall|i: int|
            0 <= i < value.len() ==> ' ' <= #[trigger] value[i] <= '~',
{
    if forall|i: int| 0 <= i < value.len() ==> ' ' <= #[trigger] value[i] <= '~' {
        assert forall|i: int| 0 <= i < value.len() implies is_printable(#[trigger] value[i]) by {
        }
    }
    if valid_value(value) {
        assert forall|i: int| 0 <= i < value.len() implies ' ' <= #[trigger] value[i] <= '~' by {
            assert(is_printable(value[i]));
        }
    }
}

/// A character is one of a token just where it is visible ASCII and no delimiter.
proof fn lemma_token_char(c: char)
    ensures
        is_token_char(c) <==> {
            &&& '!' <= c <= '~'
            &&& c != '"' && c != '(' && c != ')' && c != ',' && c != '/' && c != ':' && c != ';'
                && c != '<' && c != '=' && c != '>' && c != '?' && c != '@' && c != '['
                && c != '\\' && c != ']' && c != '{' && c != '}'
        },
{
    let marks =
        seq!['!', '#', '$', '%', '&', '\'', '*', '+', '-', '.', '^', '_', '`', '|', '~'];
    assert(marks[0] == '!' && marks[1] == '#' && marks[2] == '$' && marks[3] == '%' && marks[4]
        == '&' && marks[5] == '\'' && marks[6] == '*' && marks[7] == '+' && marks[8] == '-'
        && marks[9] == '.' && marks[10] == '^' && marks[11] == '_' && marks[12] == '`'
        && marks[13] == '|' && marks[14] == '~');
    if marks.contains(c) {
        let i = marks.index_of(c);
        assert(marks[i] == c);
    }
}

/// A name can be sent just where it is not empty and not too long, is made of visible ASCII
/// characters without delimiters, and does not end in `-bin` in any case.
pub proof fn law_names_that_can_be_sent(name: Seq<char>)
    ensures
        valid_name(name) <==> {
            &&& 1 <= name.len() <= 65535
            &&& forall|i: int|
                #![trigger name[i]]
                0 <= i < name.len() ==> {
                    &&& '!' <= name[i] <= '~'
                    &&& name[i] != '"' && name[i] != '(' && name[i] != ')' && name[i] != ','
                        && name[i] != '/' && name[i] != ':' && name[i] != ';' && name[i] != '<'
                        && name[i] != '=' && name[i] != '>' && name[i] != '?' && name[i] != '@'
                        && name[i] != '[' && name[i] != '\\' && name[i] != ']' && name[i] != '{'
                        && name[i] != '}'
                }
            &&& !({
                &&& name.len() >= 4
                &&& name[name.len() - 4] == '-'
                &&& name[name.len() - 3] == 'b' || name[name.len() - 3] == 'B'
                &&& name[name.len() - 2] == 'i' || name[name.len() - 2] == 'I'
                &&& name[name.len() - 1] == 'n' || name[name.len() - 1] == 'N'
            })
        },
{
    assert forall|i: int| 0 <= i < name.len() implies (is_token_char(#[trigger] name[i]) <==> {
        &&& '!' <= name[i] <= '~'
        &&& name[i] != '"' && name[i] != '(' && name[i] != ')' && name[i] != ',' && name[i] != '/'
            && name[i] != ':' && name[i] != ';' && name[i] != '<' && name[i] != '=' && name[i]
            != '>' && name[i] != '?' && name[i] != '@' && name[i] != '[' && name[i] != '\\'
            && name[i] != ']' && name[i] != '{' && name[i] != '}'
    }) by {
        lemma_token_char(name[i]);
    }
    let n = name.len();
    let low = lower(name);
    let suffix = seq!['-', 'b', 'i', 'n'];
    if n >= 4 {
        assert(low[n - 4] == lower_char(name[n - 4]));
        assert(low[n - 3] == lower_char(name[n - 3]));
        assert(low[n - 2] == lower_char(name[n - 2]));
        assert(low[n - 1] == lower_char(name[n - 1]));
        let end = low.subrange(n - 4, n as int);
        assert(end[0] == low[n - 4] && end[1] == low[n - 3] && end[2] == low[n - 2] && end[3]
            == low[n - 1]);
        if low[n - 4] == '-' && low[n - 3] == 'b' && low[n - 2] == 'i' && low[n - 1] == 'n' {
            assert(end =~= suffix);
        }
        assert(suffix[0] == '-' && suffix[1] == 'b' && suffix[2] == 'i' && suffix[3] == 'n');
    }
}

/// A header can be sent just where its name and its value can, each whatever the other is.
pub proof fn law_name_and_value_are_judged_apart(name: Seq<char>, value: Seq<char>)
    ensures
        sendable((name, value)) <==> valid_name(name) && valid_value(value),
{
}

/// Names are stored in lower case: each letter from `A` to `Z` becomes the one 32 code
/// points on, and every other character stays.
pub proof fn law_lower_case(name: Seq<char>)
    ensures
        lower(name).len() == name.len(),
        forall|i: int|
            #![trigger lower(name)[i]]
            0 <= i < name.len() ==> lower(name)[i] as int == (if 'A' <= name[i] <= 'Z' {
                name[i] as int + 32
            } else {
                name[i] as int
            }),
{
}

/// What can stand on the wire: the tab, and all from the space on but the delete character.
pub proof fn law_wire_characters(c: char, b: u8)
    ensures
        is_wire_char(c) <==> c as int == 9 || (c as int >= 32 && c as int != 127),
        is_wire_byte(b) <==> b == 9 || (b >= 32 && b != 127),
{
}

/// The text of a list of headers is that of each header, in the same place.
pub proof fn law_header_views(headers: Seq<(String, String)>)
    ensures
        header_views(headers).len() == headers.len(),
        forall|i: int|
            0 <= i < headers.len() ==> #[trigger] header_views(headers)[i] == (
                headers[i].0@,
                headers[i].1@,
            ),
{
}

/// A walk meets every header, no name twice.
pub proof fn law_a_walk_meets_every_header_once(
    headers: Map<String, String>,
    walk: Seq<HeaderView>,
    name: String,
)
    requires
        is_walk(headers, walk),
    ensures
        walk.len() == headers.len(),
        headers.contains_key(name) ==> exists|i: int|
            0 <= i < walk.len() && #[trigger] walk[i] == (name@, headers[name]@),
        forall|i: int, j: int|
            0 <= i < j < walk.len() ==> (#[trigger] walk[i]).0 != (#[trigger] walk[j]).0,
{
    if headers.contains_key(name) {
        assert(walk.contains((name@, headers[name]@)));
    }
}

/// A walk meets nothing but headers.
pub proof fn law_a_walk_meets_headers_only(
    headers: Map<String, String>,
    walk: Seq<HeaderView>,
    i: int,
)
    requires
        is_walk(headers, walk),
        0 <= i < walk.len(),
    ensures
        exists|name: String| #[trigger]
            headers.contains_key(name) && walk[i] == (name@, headers[name]@),
{
    assert(is_entry(headers, walk[i]));
}

/// A name is sent just where some header that can be sent has it, in any case.
pub proof fn law_sent_names(headers: Map<String, String>, key: Seq<char>)
    ensures
        sent_names(headers).contains(key) <==> exists|name: String| #[trigger]
            headers.contains_key(name) && valid_name(name@) && valid_value(headers[name]@)
                && lower(name@) == key,
{
    let sent = headers.dom().filter(|name: String| sendable((name@, headers[name]@)));
    if sent_names(headers).contains(key) {
        let name = choose|name: String| #[trigger] sent.contains(name) && lower(name@) == key;
        assert(headers.contains_key(name));
    }
    if exists|name: String| #[trigger]
        headers.contains_key(name) && valid_name(name@) && valid_value(headers[name]@)
            && lower(name@) == key {
        let name = choose|name: String| #[trigger]
            headers.contains_key(name) && valid_name(name@) && valid_value(headers[name]@)
                && lower(name@) == key;
        assert(sent.contains(name));
    }
}

/// A header with a name that can be sent and a value of printable ASCII is sent, with that
/// value and no other, where no other header that can be sent has its name in another case.
pub proof fn law_a_good_header_is_sent(
    headers: Map<String, String>,
    metadata: MetadataMap,
    name: String,
)
    requires
        carries(metadata, headers),
        headers.contains_key(name),
        valid_name(name@),
        forall|i: int|
            0 <= i < headers[name]@.len() ==> ' ' <= #[trigger] headers[name]@[i] <= '~',
        forall|other: String| #[trigger]
            headers.contains_key(other) && valid_name(other@) && valid_value(headers[other]@)
                && lower(other@) == lower(name@) ==> other@ == name@,
    ensures
        metadata_entries(metadata).contains_key(lower(name@)),
        metadata_entries(metadata)[lower(name@)] == seq![encode_utf8(headers[name]@)],
{
    law_printable_values_can_be_sent(headers[name]@);
    let walk = choose|walk: Seq<HeaderView>| #[trigger]
        is_walk(headers, walk) && metadata_entries(metadata) == metadata_of(walk);
    assert(walk.contains((name@, headers[name]@)));
    let i = walk.index_of((name@, headers[name]@));
    assert forall|j: int| i < j < walk.len() && sendable(#[trigger] walk[j]) implies lower(
        walk[j].0,
    ) != lower(walk[i].0) by {
        assert(is_entry(headers, walk[j]));
        let other = choose|other: String| #[trigger]
            headers.contains_key(other) && walk[j] == (other@, headers[other]@);
        assert(walk[i].0 != walk[j].0);
    }
    law_last_header_wins(walk, i);
}

/// What the metadata of a list holds under a name comes from a header of the list.
proof fn lemma_metadata_source(headers: Seq<HeaderView>, key: Seq<char>)
    requires
        metadata_of(headers).contains_key(key),
    ensures
        exists|i: int|
            0 <= i < headers.len() && sendable(#[trigger] headers[i]) && lower(headers[i].0) == key
                && metadata_of(headers)[key] == seq![encode_utf8(headers[i].1)],
    decreases headers.len(),
{
    let last = headers.len() - 1;
    if sendable(headers[last]) && lower(headers[last].0) == key {
    } else {
        let init = headers.drop_last();
        lemma_metadata_source(init, key);
        let i = choose|i: int|
            0 <= i < init.len() && sendable(#[trigger] init[i]) && lower(init[i].0) == key
                && metadata_of(init)[key] == seq![encode_utf8(init[i].1)];
        assert(sendable(headers[i]));
    }
}

/// Whatever is sent comes from a header: under its name in lower case, with its value, which
/// is printable ASCII, and no other.
pub proof fn law_only_good_headers_are_sent(
    headers: Map<String, String>,
    metadata: MetadataMap,
    key: Seq<char>,
)
    requires
        carries(metadata, headers),
        metadata_entries(metadata).contains_key(key),
    ensures
        exists|name: String| #[trigger]
            headers.contains_key(name) && valid_name(name@) && (forall|i: int|
                0 <= i < headers[name]@.len() ==> ' ' <= #[trigger] headers[name]@[i] <= '~')
                && lower(name@) == key && metadata_entries(metadata)[key] == seq![
                encode_utf8(headers[name]@),
            ],
{
    let walk = choose|walk: Seq<HeaderView>| #[trigger]
        is_walk(headers, walk) && metadata_entries(metadata) == metadata_of(walk);
    lemma_metadata_source(walk, key);
    let i = choose|i: int|
        0 <= i < walk.len() && sendable(#[trigger] walk[i]) && lower(walk[i].0) == key
            && metadata_of(walk)[key] == seq![encode_utf8(walk[i].1)];
    assert(is_entry(headers, walk[i]));
    let name = choose|name: String| #[trigger]
        headers.contains_key(name) && walk[i] == (name@, headers[name]@);
    law_printable_values_can_be_sent(headers[name]@);
}

/// A header with a name that can be sent and a value of printable ASCII, handed to
/// [`headers_to_metadata`] by itself or among others of other names, comes out with that
/// value.
pub proof fn law_credentials_are_sent(
    headers: &HashMap<String, String>,
    metadata: MetadataMap,
    name: String,
)
    requires
        call_ensures(headers_to_metadata, (headers,), metadata),
        headers@.contains_key(name),
        valid_name(name@),
        forall|i: int|
            0 <= i < headers@[name]@.len() ==> ' ' <= #[trigger] headers@[name]@[i] <= '~',
        forall|other: String| #[trigger]
            headers@.contains_key(other) && lower(other@) == lower(name@) ==> other@ == name@,
    ensures
        metadata_entries(metadata).contains_key(lower(name@)),
        metadata_entries(metadata)[lower(name@)] == seq![encode_utf8(headers@[name]@)],
{
    law_a_good_header_is_sent(headers@, metadata, name);
}

/// A list handed to [`list_to_metadata`] gives, under the name of each header that can be
/// sent and has no later one of its name, that header's value.
pub proof fn law_listed_headers_are_sent(
    headers: &Vec<(String, String)>,
    metadata: MetadataMap,
    i: int,
)
    requires
        call_ensures(list_to_metadata, (headers,), metadata),
        0 <= i < headers@.len(),
        valid_name(headers@[i].0@),
        valid_value(headers@[i].1@),
        forall|j: int|
            i < j < headers@.len() && lower((#[trigger] headers@[j]).0@) == lower(
                headers@[i].0@,
            ) ==> !(valid_name(headers@[j].0@) && valid_value(headers@[j].1@)),
    ensures
        metadata_entries(metadata).contains_key(lower(headers@[i].0@)),
        metadata_entries(metadata)[lower(headers@[i].0@)] == seq![encode_utf8(headers@[i].1@)],
{
    let views = header_views(headers@);
    assert forall|j: int| i < j < views.len() && sendable(#[trigger] views[j]) implies lower(
        views[j].0,
    ) != lower(views[i].0) by {
        assert(views[j] == (headers@[j].0@, headers@[j].1@));
    }
    law_last_header_wins(views, i);
}

} // verus!
