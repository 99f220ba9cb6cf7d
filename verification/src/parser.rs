//! The reader of a container's decoded text.
//!
//! The text looks like markup but is not well formed: it is read by finding
//! literals and splitting on literals. A package tag carries the package's
//! name and password; each `<file>` starts the description of one file.
//! Every value is base64 text that holds UTF-8.

use vstd::prelude::*;
use vstd::string::*;
use vstd::utf8::*;
use crate::codec::{base64_decode, base64_decoding};
use crate::decoder::DlcDecoder;
use crate::error::DlcError;
use crate::package::{link_views, DlcLink, DlcPackage, LinkModel, PackageModel};
use crate::text::{
    chars_of,
    copy_range,
    find_from,
    first_occurrence,
    first_occurrence_is_least,
    first_occurrence_unique,
    occurs_at,
    pieces_from,
    piece_views,
    read_text,
    split,
    split_has_a_piece,
    split_on,
    split_without_delimiter,
    stands_at,
    text_in,
    text_of,
};

verus! {

broadcast use vstd::string::group_string_axioms;

/// The text that a base64 value stands for, where the value decodes and the
/// bytes are valid UTF-8.
pub open spec fn decoded_text(value: Seq<char>) -> Option<Seq<char>> {
    match base64_decoding(encode_utf8(value)) {
        Some(bytes) => text_in(bytes),
        None => None,
    }
}

/// A file field's value: the decoded text, or the raw value itself where it
/// does not decode.
pub open spec fn value_text(raw: Seq<char>) -> Seq<char> {
    match decoded_text(raw) {
        Some(text) => text,
        None => raw,
    }
}

/// Where a tag that was opened before `from` ends: at the next `>`, or at
/// the end of the text.
pub open spec fn tag_end(text: Seq<char>, from: int) -> int {
    match first_occurrence(text, ">"@, from) {
        Some(at) => at,
        None => text.len() as int,
    }
}

/// The first package tag, from its `<` up to its closing `>`.
pub open spec fn package_span(text: Seq<char>) -> Option<Seq<char>> {
    match first_occurrence(text, "<package "@, 0) {
        Some(at) => Some(text.subrange(at, tag_end(text, at + "<package "@.len()))),
        None => None,
    }
}

/// The value of the first attribute of `span` that `opener` opens, up to the
/// next double quote; none where the opener or the closing quote is missing.
pub open spec fn attribute(span: Seq<char>, opener: Seq<char>) -> Option<Seq<char>> {
    match first_occurrence(span, opener, 0) {
        Some(at) => match first_occurrence(span, "\""@, at + opener.len()) {
            Some(close) => Some(span.subrange(at + opener.len(), close)),
            None => None,
        },
        None => None,
    }
}

/// Name and password of the package, where the tag, both attributes and
/// both decodings are there.
pub open spec fn header_found(text: Seq<char>) -> Option<(Seq<char>, Seq<char>)> {
    match package_span(text) {
        Some(span) => match (attribute(span, "name=\""@), attribute(span, "passwords=\""@)) {
            (Some(name), Some(password)) => match (decoded_text(name), decoded_text(password)) {
                (Some(n), Some(p)) => Some((n, p)),
                _ => None,
            },
            _ => None,
        },
        None => None,
    }
}

/// The package that the header gives: name and password where all of the
/// header is found, both empty otherwise; no files.
pub open spec fn header_of(text: Seq<char>) -> PackageModel {
    match header_found(text) {
        Some((name, password)) => PackageModel { name, password, files: Seq::empty() },
        None => PackageModel::blank(),
    }
}

/// `token` begins with `tag` and goes on after it.
pub open spec fn tagged(token: Seq<char>, tag: Seq<char>) -> bool {
    token.len() > tag.len() && occurs_at(token, tag, 0)
}

/// What `token` holds from position `pos` on: nothing, where it ends before.
pub open spec fn rest_from(token: Seq<char>, pos: int) -> Seq<char> {
    if 0 <= pos <= token.len() {
        token.skip(pos)
    } else {
        Seq::empty()
    }
}

/// The value of the field that `token` opens, from position `pos` on.
pub open spec fn field_value(token: Seq<char>, pos: int) -> Seq<char> {
    value_text(rest_from(token, pos))
}

/// The value of the field whose tag `token` begins with: what follows the
/// tag and one more character.
pub open spec fn field_after(token: Seq<char>, tag: Seq<char>) -> Seq<char> {
    field_value(token, tag.len() as int + 1)
}

/// `link` after one token of a file's description: a token that begins with
/// `url`, `filename` or `size` sets that field to what follows the tag and
/// one more character; any other token changes nothing.
pub open spec fn with_token(link: LinkModel, token: Seq<char>) -> LinkModel {
    if tagged(token, "url"@) {
        LinkModel { url: field_after(token, "url"@), ..link }
    } else if tagged(token, "filename"@) {
        LinkModel { name: field_after(token, "filename"@), ..link }
    } else if tagged(token, "size"@) {
        LinkModel { size: field_after(token, "size"@), ..link }
    } else {
        link
    }
}

/// The link after the given tokens, taken from the left.
pub open spec fn link_after(tokens: Seq<Seq<char>>) -> LinkModel {
    tokens.fold_left(LinkModel::blank(), |link: LinkModel, token: Seq<char>| with_token(link, token))
}

/// The link that one file's description gives.
pub open spec fn link_of(chunk: Seq<char>) -> LinkModel {
    link_after(split_on(chunk, "<"@))
}

/// The links of the text: one for each `<file>`, in order.
pub open spec fn links_of(text: Seq<char>) -> Seq<LinkModel> {
    split_on(text, "<file>"@).skip(1).map_values(|chunk: Seq<char>| link_of(chunk))
}

/// The package that the text describes.
pub open spec fn package_of(text: Seq<char>) -> PackageModel {
    PackageModel { files: links_of(text), ..header_of(text) }
}

/// A value that is not base64, or not base64 of UTF-8, stands for itself.
pub proof fn undecodable_value_stays_raw(raw: Seq<char>)
    requires
        match base64_decoding(encode_utf8(raw)) {
            Some(bytes) => !valid_utf8(bytes),
            None => true,
        },
    ensures
        value_text(raw) == raw,
{
}

/// Text without `<file>` has no links. Whatever its header gives stays.
pub proof fn no_file_no_links(text: Seq<char>)
    requires
        first_occurrence(text, "<file>"@, 0) is None,
    ensures
        links_of(text) == Seq::<LinkModel>::empty(),
        package_of(text) == header_of(text),
{
    split_without_delimiter(text, "<file>"@);
}

/// Each `<file>` gives one link: none is skipped.
pub proof fn one_link_per_file(text: Seq<char>)
    ensures
        links_of(text).len() + 1 == split_on(text, "<file>"@).len(),
{
    split_has_a_piece(text, "<file>"@);
}

/// A package tag without a name attribute gives neither name nor password,
/// and so does text without a package tag.
pub proof fn header_without_name_is_blank(text: Seq<char>)
    requires
        match package_span(text) {
            Some(span) => first_occurrence(span, "name=\""@, 0) is None,
            None => true,
        },
    ensures
        header_of(text) == PackageModel::blank(),
        package_of(text).name == Seq::<char>::empty(),
        package_of(text).password == Seq::<char>::empty(),
{
}

/// A description that is `url>`, a value without `<`, and `<` gives a link
/// whose address is that value decoded, and nothing else.
pub proof fn url_chunk_gives_the_address(value: Seq<char>)
    requires
        forall|i: int| 0 <= i < value.len() ==> value[i] != '<',
    ensures
        link_of("url>"@ + value + "<"@) == (LinkModel {
            url: value_text(value),
            ..LinkModel::blank()
        }),
{
    reveal_strlit("url>");
    reveal_strlit("<");
    reveal_strlit("url");
    reveal_strlit("filename");
    reveal_strlit("size");
    let chunk = "url>"@ + value + "<"@;
    let bracket = "<"@;
    let end = 4 + value.len() as int;
    assert(chunk.subrange(end, end + 1) =~= bracket);
    assert forall|j: int| 0 <= j < end implies !occurs_at(chunk, bracket, j) by {
        assert(chunk.subrange(j, j + 1)[0] == chunk[j]);
    }
    first_occurrence_unique(chunk, bracket, 0, end);
    let first = chunk.subrange(0, end);
    let second = chunk.subrange(end + 1, chunk.len() as int);
    assert(pieces_from(chunk, bracket, end + 1) =~= seq![second]);
    let tokens = split_on(chunk, bracket);
    assert(tokens.drop_last() =~= seq![first]);
    assert(link_after(seq![first]) == with_token(link_after(seq![first].drop_last()), first));
    assert(first.subrange(0, 3) =~= "url"@);
    assert(first.skip(4) =~= value);
}

/// Tokens of which none begins with a known tag leave a link as it is.
pub proof fn untagged_tokens_change_nothing(tokens: Seq<Seq<char>>)
    requires
        forall|i: int|
            0 <= i < tokens.len() ==> !tagged(#[trigger] tokens[i], "url"@) && !tagged(
                tokens[i],
                "filename"@,
            ) && !tagged(tokens[i], "size"@),
    ensures
        link_after(tokens) == LinkModel::blank(),
    decreases tokens.len(),
{
    if tokens.len() > 0 {
        untagged_tokens_change_nothing(tokens.drop_last());
    }
}

/// Decodes a base64 value to text.
pub fn decode_text(value: &[char]) -> (r: Option<String>)
    ensures
        match r {
            Some(text) => decoded_text(value@) == Some(text@),
            None => decoded_text(value@) is None,
        },
{
    let raw = text_of(value);
    match base64_decode(raw.as_str().as_bytes()) {
        Ok(bytes) => read_text(bytes.as_slice()),
        Err(_) => None,
    }
}

/// The value of the field that `token` opens, from position `pos` on.
pub fn field_text(token: &[char], pos: usize) -> (r: String)
    ensures
        r@ == field_value(token@, pos as int),
{
    let end: usize = token.len();
    let raw = if pos <= end {
        copy_range(token, pos, end)
    } else {
        Vec::new()
    };
    match decode_text(raw.as_slice()) {
        Some(text) => text,
        None => text_of(raw.as_slice()),
    }
}

/// The value of the attribute of `span` that `opener` opens.
pub fn attribute_value(span: &[char], opener: &[char]) -> (r: Option<Vec<char>>)
    ensures
        match r {
            Some(value) => attribute(span@, opener@) == Some(value@),
            None => attribute(span@, opener@) is None,
        },
{
    let at = match find_from(span, opener, 0) {
        Some(at) => at,
        None => { return None; },
    };
    proof {
        first_occurrence_is_least(span@, opener@, 0);
        assert(span@.len() == span.len());
    }
    let from: usize = at + opener.len();
    let quote = chars_of("\"");
    match find_from(span, quote.as_slice(), from) {
        Some(close) => {
            proof {
                first_occurrence_is_least(span@, quote@, from as int);
            }
            Some(copy_range(span, from, close))
        },
        None => None,
    }
}

/// The first package tag of `text`.
pub fn find_package_span(text: &[char]) -> (r: Option<Vec<char>>)
    ensures
        match r {
            Some(span) => package_span(text@) == Some(span@),
            None => package_span(text@) is None,
        },
{
    let opener = chars_of("<package ");
    let total: usize = text.len();
    let at = match find_from(text, opener.as_slice(), 0) {
        Some(at) => at,
        None => { return None; },
    };
    proof {
        first_occurrence_is_least(text@, opener@, 0);
    }
    let from: usize = at + opener.len();
    let closer = chars_of(">");
    let end: usize = match find_from(text, closer.as_slice(), from) {
        Some(end) => {
            proof {
                first_occurrence_is_least(text@, closer@, from as int);
            }
            end
        },
        None => total,
    };
    Some(copy_range(text, at, end))
}

/// Name and password of the package, where all of the header is found.
pub fn find_header(text: &[char]) -> (r: Option<(String, String)>)
    ensures
        match r {
            Some((name, password)) => header_found(text@) == Some((name@, password@)),
            None => header_found(text@) is None,
        },
{
    let span = match find_package_span(text) {
        Some(span) => span,
        None => { return None; },
    };
    let name_opener = chars_of("name=\"");
    let name_value = match attribute_value(span.as_slice(), name_opener.as_slice()) {
        Some(value) => value,
        None => { return None; },
    };
    let name = match decode_text(name_value.as_slice()) {
        Some(name) => name,
        None => { return None; },
    };
    let password_opener = chars_of("passwords=\"");
    let password_value = match attribute_value(span.as_slice(), password_opener.as_slice()) {
        Some(value) => value,
        None => { return None; },
    };
    match decode_text(password_value.as_slice()) {
        Some(password) => Some((name, password)),
        None => None,
    }
}

/// Whether `token` begins with `tag` and goes on after it.
pub fn has_tag(token: &[char], tag: &[char]) -> (r: bool)
    ensures
        r == tagged(token@, tag@),
{
    token.len() > tag.len() && stands_at(token, tag, 0)
}

/// The link that one file's description gives.
pub fn parse_link(chunk: &[char]) -> (r: DlcLink)
    ensures
        r@ == link_of(chunk@),
{
    let opener = chars_of("<");
    let url_tag = chars_of("url");
    let name_tag = chars_of("filename");
    let size_tag = chars_of("size");
    let tokens = split(chunk, opener.as_slice());
    let mut link = DlcLink::new();
    let mut i: usize = 0;
    while i < tokens.len()
        invariant
            i <= tokens@.len(),
            url_tag@ == "url"@,
            name_tag@ == "filename"@,
            size_tag@ == "size"@,
            link@ == link_after(piece_views(tokens@).take(i as int)),
        decreases tokens.len() - i,
    {
        let token = tokens[i].as_slice();
        proof {
            let seen = piece_views(tokens@).take(i + 1);
            assert(seen.drop_last() =~= piece_views(tokens@).take(i as int));
            assert(seen.last() == token@);
        }
        if has_tag(token, url_tag.as_slice()) {
            link.url = field_text(token, url_tag.len() + 1);
        } else if has_tag(token, name_tag.as_slice()) {
            link.name = field_text(token, name_tag.len() + 1);
        } else if has_tag(token, size_tag.as_slice()) {
            link.size = field_text(token, size_tag.len() + 1);
        }
        i += 1;
    }
    link
}

impl DlcDecoder {
    /// Reads the package's name and password. A header that is not all there
    /// is no failure: name and password are then both empty.
    pub fn parse_header(&self, data: &str) -> (r: Result<DlcPackage, DlcError>)
        ensures
            r matches Ok(package) && package@ == header_of(data@),
    {
        let text = chars_of(data);
        let mut package = DlcPackage::new();
        match find_header(text.as_slice()) {
            Some((name, password)) => {
                package.name = name;
                package.password = password;
            },
            None => {},
        }
        Ok(package)
    }

    /// Appends to `dlc` one link for each `<file>` of the text, in order. A
    /// description without any known field still gives a link, with every
    /// field empty.
    pub fn parse_body(&self, dlc: &mut DlcPackage, data: &str) -> (r: Result<(), DlcError>)
        ensures
            r is Ok,
            final(dlc)@ == (PackageModel {
                files: old(dlc)@.files + links_of(data@),
                ..old(dlc)@
            }),
    {
        let text = chars_of(data);
        let delimiter = chars_of("<file>");
        let chunks = split(text.as_slice(), delimiter.as_slice());
        let ghost all = links_of(data@);
        let mut i: usize = 1;
        while i < chunks.len()
            invariant
                1 <= i,
                chunks@.len() >= 1,
                i <= chunks@.len(),
                piece_views(chunks@) == split_on(data@, "<file>"@),
                all == links_of(data@),
                dlc@ == (PackageModel {
                    files: old(dlc)@.files + all.take(i - 1),
                    ..old(dlc)@
                }),
            decreases chunks.len() - i,
        {
            let link = parse_link(chunks[i].as_slice());
            let ghost before = dlc.files@;
            dlc.files.push(link);
            proof {
                assert(link_views(dlc.files@) =~= link_views(before).push(link@));
                assert(dlc@.files =~= old(dlc)@.files + all.take(i as int));
            }
            i += 1;
        }
        proof {
            assert(all.take(all.len() as int) =~= all);
        }
        Ok(())
    }

    /// The value of a file field: `data` from position `pos` on, decoded
    /// from base64 to text, or as it stands where it does not decode.
    pub fn file_details(&self, data: String, pos: usize) -> (r: String)
        ensures
            r@ == field_value(data@, pos as int),
    {
        let token = chars_of(data.as_str());
        field_text(token.as_slice(), pos)
    }
}

} // verus!
