//! Register-server request payload: a request header and the registered
//! server's description, with arrays of strings and localized texts.

use vstd::prelude::*;
use crate::codec::{
    extension_object_bytes, extension_object_byte_len, extension_object_wf, localized_text_bytes,
    localized_text_byte_len, localized_text_wf, node_id_byte_len, node_id_bytes,
    parse_extension_object, parse_localized_text, parse_node_id, read_extension_object,
    read_localized_text, read_node_id, write_extension_object, write_localized_text,
    write_node_id, ExtensionObjectModel, LocalizedTextModel,
};
use crate::encoding::{
    bool_byte, bytestring_bytes, bytestring_wf, i64_le_bytes, parse_bool, parse_bytestring,
    parse_i64, parse_u32, read_bool, read_bytestring, read_i64, read_u32, u32_le_bytes,
    write_bool, write_bytestring, write_i64, write_u32,
};
use crate::types::{ExtensionObject, LocalizedText, NodeId, ObjectId, StatusCode};

verus! {

// ---------------------------------------------------------------------------
// ApplicationType
// ---------------------------------------------------------------------------

/// What kind of application a registered server is.
#[derive(Clone, Copy, PartialEq, Eq, Structural, Debug)]
pub enum ApplicationType {
    Server,
    Client,
    ClientAndServer,
    DiscoveryServer,
}

pub open spec fn application_type_wire(t: ApplicationType) -> u32 {
    match t {
        ApplicationType::Server => 0u32,
        ApplicationType::Client => 1u32,
        ApplicationType::ClientAndServer => 2u32,
        ApplicationType::DiscoveryServer => 3u32,
    }
}

pub open spec fn parse_application_type(s: Seq<u8>, p: int) -> Option<(ApplicationType, int)> {
    match parse_u32(s, p) {
        Option::None => Option::None,
        Option::Some((v, p1)) => if v == 0 {
            Option::Some((ApplicationType::Server, p1))
        } else if v == 1 {
            Option::Some((ApplicationType::Client, p1))
        } else if v == 2 {
            Option::Some((ApplicationType::ClientAndServer, p1))
        } else if v == 3 {
            Option::Some((ApplicationType::DiscoveryServer, p1))
        } else {
            Option::None
        },
    }
}

fn write_application_type(out: &mut Vec<u8>, t: ApplicationType)
    ensures
        final(out)@ == old(out)@ + u32_le_bytes(application_type_wire(t)),
{
    let v: u32 = match t {
        ApplicationType::Server => 0,
        ApplicationType::Client => 1,
        ApplicationType::ClientAndServer => 2,
        ApplicationType::DiscoveryServer => 3,
    };
    write_u32(out, v);
}

fn read_application_type(data: &Vec<u8>, pos: &mut usize) -> (r: Result<
    ApplicationType,
    StatusCode,
>)
    ensures
        match parse_application_type(data@, *old(pos) as int) {
            Option::Some((v, np)) => r == Ok::<ApplicationType, StatusCode>(v)
                && *final(pos) as int == np,
            Option::None => r is Err,
        },
        r is Err ==> r == Err::<ApplicationType, StatusCode>(StatusCode::BadDecodingError),
{
    match read_u32(data, pos) {
        Option::None => Err(StatusCode::BadDecodingError),
        Option::Some(v) => {
            if v == 0 {
                Ok(ApplicationType::Server)
            } else if v == 1 {
                Ok(ApplicationType::Client)
            } else if v == 2 {
                Ok(ApplicationType::ClientAndServer)
            } else if v == 3 {
                Ok(ApplicationType::DiscoveryServer)
            } else {
                Err(StatusCode::BadDecodingError)
            }
        },
    }
}

// ---------------------------------------------------------------------------
// Arrays of strings
// ---------------------------------------------------------------------------

/// The ghost strings of an exec string vector.
pub open spec fn strings_view(ss: Seq<Option<Vec<u8>>>) -> Seq<Option<Seq<u8>>> {
    ss.map(
        |i: int, o: Option<Vec<u8>>|
            match o {
                Option::Some(v) => Option::Some(v@),
                Option::None => Option::None,
            },
    )
}

pub open spec fn strings_bytes_from(ss: Seq<Option<Seq<u8>>>, i: int) -> Seq<u8>
    decreases ss.len() - i,
{
    if i < 0 || i >= ss.len() {
        Seq::empty()
    } else {
        bytestring_bytes(ss[i]) + strings_bytes_from(ss, i + 1)
    }
}

pub open spec fn string_array_wf(ss: Seq<Option<Seq<u8>>>) -> bool {
    &&& ss.len() <= 0x7fffffff
    &&& forall|i: int| 0 <= i < ss.len() ==> bytestring_wf(#[trigger] ss[i])
}

pub open spec fn string_array_bytes(ss: Seq<Option<Seq<u8>>>) -> Seq<u8> {
    u32_le_bytes(ss.len() as u32) + strings_bytes_from(ss, 0)
}

pub open spec fn parse_strings(s: Seq<u8>, p: int, count: int) -> Option<(
    Seq<Option<Seq<u8>>>,
    int,
)>
    decreases count,
{
    if count <= 0 {
        Option::Some((Seq::empty(), p))
    } else {
        match parse_bytestring(s, p) {
            Option::None => Option::None,
            Option::Some((e, p1)) => match parse_strings(s, p1, count - 1) {
                Option::None => Option::None,
                Option::Some((rest, p2)) => Option::Some((seq![e] + rest, p2)),
            },
        }
    }
}

pub open spec fn parse_string_array(s: Seq<u8>, p: int) -> Option<(Seq<Option<Seq<u8>>>, int)> {
    match parse_u32(s, p) {
        Option::None => Option::None,
        Option::Some((n, p1)) => if n <= 0x7fffffff {
            parse_strings(s, p1, n as int)
        } else {
            Option::None
        },
    }
}

/// Parsing `a + b` strings is parsing `a`, then `b` more from where the
/// first run stopped.
pub proof fn lemma_parse_strings_split(s: Seq<u8>, p: int, a: int, b: int)
    requires
        a >= 0,
        b >= 0,
    ensures
        parse_strings(s, p, a + b) == (match parse_strings(s, p, a) {
            Option::None => Option::None::<(Seq<Option<Seq<u8>>>, int)>,
            Option::Some((es1, q)) => match parse_strings(s, q, b) {
                Option::None => Option::None::<(Seq<Option<Seq<u8>>>, int)>,
                Option::Some((es2, r2)) => Option::Some((es1 + es2, r2)),
            },
        }),
    decreases a,
{
    if a == 0 {
        match parse_strings(s, p, b) {
            Option::None => {},
            Option::Some((es2, r2)) => {
                assert(Seq::<Option<Seq<u8>>>::empty() + es2 =~= es2);
            },
        }
    } else {
        match parse_bytestring(s, p) {
            Option::None => {},
            Option::Some((e, pe)) => {
                lemma_parse_strings_split(s, pe, a - 1, b);
                match parse_strings(s, pe, a - 1) {
                    Option::None => {},
                    Option::Some((es1p, q)) => {
                        match parse_strings(s, q, b) {
                            Option::None => {},
                            Option::Some((es2, r2)) => {
                                assert((seq![e] + es1p) + es2 =~= seq![e] + (es1p + es2));
                            },
                        }
                    },
                }
            },
        }
    }
}

fn bytestring_byte_len(b: &Option<Vec<u8>>) -> (size: usize)
    requires
        bytestring_wf(match *b {
            Option::Some(ref s) => Option::Some(s@),
            Option::None => Option::None,
        }),
    ensures
        size == bytestring_bytes(match *b {
            Option::Some(ref s) => Option::Some(s@),
            Option::None => Option::None,
        }).len(),
{
    match b {
        Option::None => 4,
        Option::Some(v) => 4 + v.len(),
    }
}

fn string_array_byte_len(ss: &Vec<Option<Vec<u8>>>) -> (size: usize)
    requires
        string_array_wf(strings_view(ss@)),
        string_array_bytes(strings_view(ss@)).len() <= usize::MAX,
    ensures
        size == string_array_bytes(strings_view(ss@)).len(),
{
    let ghost es = strings_view(ss@);
    let mut size: usize = 4;
    let mut i: usize = 0;
    while i < ss.len()
        invariant
            string_array_wf(es),
            string_array_bytes(es).len() <= usize::MAX,
            i <= ss.len(),
            es == strings_view(ss@),
            size as int + strings_bytes_from(es, i as int).len() == string_array_bytes(es).len(),
        decreases ss.len() - i,
    {
        proof {
            assert(strings_bytes_from(es, i as int) == bytestring_bytes(es[i as int])
                + strings_bytes_from(es, i as int + 1));
        }
        size = size + bytestring_byte_len(&ss[i]);
        i = i + 1;
    }
    size
}

fn write_string_array(out: &mut Vec<u8>, ss: &Vec<Option<Vec<u8>>>)
    requires
        string_array_wf(strings_view(ss@)),
    ensures
        final(out)@ == old(out)@ + string_array_bytes(strings_view(ss@)),
{
    let ghost es = strings_view(ss@);
    write_u32(out, ss.len() as u32);
    let mut i: usize = 0;
    while i < ss.len()
        invariant
            string_array_wf(es),
            i <= ss.len(),
            es == strings_view(ss@),
            out@ + strings_bytes_from(es, i as int) == old(out)@ + string_array_bytes(es),
        decreases ss.len() - i,
    {
        proof {
            assert(strings_bytes_from(es, i as int) == bytestring_bytes(es[i as int])
                + strings_bytes_from(es, i as int + 1));
        }
        let ghost before = out@;
        write_bytestring(out, &ss[i]);
        i = i + 1;
        proof {
            assert(out@ + strings_bytes_from(es, i as int) =~= before + strings_bytes_from(
                es,
                i as int - 1,
            ));
        }
    }
    proof {
        assert(out@ + strings_bytes_from(es, ss@.len() as int) =~= out@);
        assert(out@ =~= old(out)@ + string_array_bytes(es));
    }
}

fn read_string_array(data: &Vec<u8>, pos: &mut usize) -> (r: Result<Vec<Option<Vec<u8>>>,
    StatusCode>)
    ensures
        match parse_string_array(data@, *old(pos) as int) {
            Option::Some((v, np)) => match r {
                Result::Ok(ss) => strings_view(ss@) == v && *final(pos) as int == np,
                Result::Err(_) => false,
            },
            Option::None => r is Err,
        },
        r is Err ==> r == Err::<Vec<Option<Vec<u8>>>, StatusCode>(StatusCode::BadDecodingError),
{
    let n = match read_u32(data, pos) {
        Option::Some(v) => v,
        Option::None => {
            return Err(StatusCode::BadDecodingError);
        },
    };
    if n > 0x7fffffff {
        return Err(StatusCode::BadDecodingError);
    }
    let ghost p1 = *pos as int;
    let mut out: Vec<Option<Vec<u8>>> = Vec::new();
    let mut k: u32 = 0;
    proof {
        assert(strings_view(out@) =~= Seq::<Option<Seq<u8>>>::empty());
    }
    while k < n
        invariant
            k <= n,
            n <= 0x7fffffff,
            out@.len() == k as nat,
            parse_u32(data@, *old(pos) as int) == Option::Some((n, p1)),
            parse_strings(data@, p1, k as int) == Option::Some(
                (strings_view(out@), *pos as int),
            ),
        decreases n - k,
    {
        let ghost before_pos = *pos as int;
        let ghost done = strings_view(out@);
        let e = match read_bytestring(data, pos) {
            Option::Some(e) => e,
            Option::None => {
                proof {
                    lemma_parse_strings_split(data@, p1, k as int, n as int - k as int);
                    assert(parse_strings(data@, before_pos, n as int - k as int) is None);
                    assert(parse_strings(data@, p1, n as int) is None);
                }
                return Err(StatusCode::BadDecodingError);
            },
        };
        let ghost em = (match e {
            Option::Some(ref v) => Option::Some(v@),
            Option::None => Option::None::<Seq<u8>>,
        });
        out.push(e);
        k = k + 1;
        proof {
            lemma_parse_strings_split(data@, p1, k as int - 1, 1);
            assert(parse_bytestring(data@, before_pos) == Option::Some((em, *pos as int)));
            assert(parse_strings(data@, *pos as int, 0) == Option::Some(
                (Seq::<Option<Seq<u8>>>::empty(), *pos as int),
            ));
            assert(parse_strings(data@, before_pos, 1) == Option::Some(
                (seq![em] + Seq::<Option<Seq<u8>>>::empty(), *pos as int),
            ));
            assert(seq![em] + Seq::<Option<Seq<u8>>>::empty() =~= seq![em]);
            assert(strings_view(out@) =~= done + seq![em]);
        }
    }
    Ok(out)
}

// ---------------------------------------------------------------------------
// Arrays of localized texts
// ---------------------------------------------------------------------------

/// The ghost texts of an exec localized text vector.
pub open spec fn texts_view(ts: Seq<LocalizedText>) -> Seq<LocalizedTextModel> {
    ts.map(|i: int, t: LocalizedText| t@)
}

pub open spec fn texts_bytes_from(ts: Seq<LocalizedTextModel>, i: int) -> Seq<u8>
    decreases ts.len() - i,
{
    if i < 0 || i >= ts.len() {
        Seq::empty()
    } else {
        localized_text_bytes(ts[i]) + texts_bytes_from(ts, i + 1)
    }
}

pub open spec fn text_array_wf(ts: Seq<LocalizedTextModel>) -> bool {
    &&& ts.len() <= 0x7fffffff
    &&& forall|i: int| 0 <= i < ts.len() ==> localized_text_wf(#[trigger] ts[i])
}

pub open spec fn text_array_bytes(ts: Seq<LocalizedTextModel>) -> Seq<u8> {
    u32_le_bytes(ts.len() as u32) + texts_bytes_from(ts, 0)
}

pub open spec fn parse_texts(s: Seq<u8>, p: int, count: int) -> Option<(
    Seq<LocalizedTextModel>,
    int,
)>
    decreases count,
{
    if count <= 0 {
        Option::Some((Seq::empty(), p))
    } else {
        match parse_localized_text(s, p) {
            Option::None => Option::None,
            Option::Some((e, p1)) => match parse_texts(s, p1, count - 1) {
                Option::None => Option::None,
                Option::Some((rest, p2)) => Option::Some((seq![e] + rest, p2)),
            },
        }
    }
}

pub open spec fn parse_text_array(s: Seq<u8>, p: int) -> Option<(Seq<LocalizedTextModel>, int)> {
    match parse_u32(s, p) {
        Option::None => Option::None,
        Option::Some((n, p1)) => if n <= 0x7fffffff {
            parse_texts(s, p1, n as int)
        } else {
            Option::None
        },
    }
}

/// Parsing `a + b` localized texts is parsing `a`, then `b` more from where
/// the first run stopped.
pub proof fn lemma_parse_texts_split(s: Seq<u8>, p: int, a: int, b: int)
    requires
        a >= 0,
        b >= 0,
    ensures
        parse_texts(s, p, a + b) == (match parse_texts(s, p, a) {
            Option::None => Option::None::<(Seq<LocalizedTextModel>, int)>,
            Option::Some((es1, q)) => match parse_texts(s, q, b) {
                Option::None => Option::None::<(Seq<LocalizedTextModel>, int)>,
                Option::Some((es2, r2)) => Option::Some((es1 + es2, r2)),
            },
        }),
    decreases a,
{
    if a == 0 {
        match parse_texts(s, p, b) {
            Option::None => {},
            Option::Some((es2, r2)) => {
                assert(Seq::<LocalizedTextModel>::empty() + es2 =~= es2);
            },
        }
    } else {
        match parse_localized_text(s, p) {
            Option::None => {},
            Option::Some((e, pe)) => {
                lemma_parse_texts_split(s, pe, a - 1, b);
                match parse_texts(s, pe, a - 1) {
                    Option::None => {},
                    Option::Some((es1p, q)) => {
                        match parse_texts(s, q, b) {
                            Option::None => {},
                            Option::Some((es2, r2)) => {
                                assert((seq![e] + es1p) + es2 =~= seq![e] + (es1p + es2));
                            },
                        }
                    },
                }
            },
        }
    }
}

fn text_array_byte_len(ts: &Vec<LocalizedText>) -> (size: usize)
    requires
        text_array_wf(texts_view(ts@)),
        text_array_bytes(texts_view(ts@)).len() <= usize::MAX,
    ensures
        size == text_array_bytes(texts_view(ts@)).len(),
{
    let ghost es = texts_view(ts@);
    let mut size: usize = 4;
    let mut i: usize = 0;
    while i < ts.len()
        invariant
            text_array_wf(es),
            text_array_bytes(es).len() <= usize::MAX,
            i <= ts.len(),
            es == texts_view(ts@),
            size as int + texts_bytes_from(es, i as int).len() == text_array_bytes(es).len(),
        decreases ts.len() - i,
    {
        proof {
            assert(texts_bytes_from(es, i as int) == localized_text_bytes(es[i as int])
                + texts_bytes_from(es, i as int + 1));
            assert(ts@[i as int]@ == es[i as int]);
        }
        size = size + localized_text_byte_len(&ts[i]);
        i = i + 1;
    }
    size
}

fn write_text_array(out: &mut Vec<u8>, ts: &Vec<LocalizedText>)
    requires
        text_array_wf(texts_view(ts@)),
    ensures
        final(out)@ == old(out)@ + text_array_bytes(texts_view(ts@)),
{
    let ghost es = texts_view(ts@);
    write_u32(out, ts.len() as u32);
    let mut i: usize = 0;
    while i < ts.len()
        invariant
            text_array_wf(es),
            i <= ts.len(),
            es == texts_view(ts@),
            out@ + texts_bytes_from(es, i as int) == old(out)@ + text_array_bytes(es),
        decreases ts.len() - i,
    {
        proof {
            assert(texts_bytes_from(es, i as int) == localized_text_bytes(es[i as int])
                + texts_bytes_from(es, i as int + 1));
            assert(ts@[i as int]@ == es[i as int]);
        }
        let ghost before = out@;
        write_localized_text(out, &ts[i]);
        i = i + 1;
        proof {
            assert(out@ + texts_bytes_from(es, i as int) =~= before + texts_bytes_from(
                es,
                i as int - 1,
            ));
        }
    }
    proof {
        assert(out@ + texts_bytes_from(es, ts@.len() as int) =~= out@);
        assert(out@ =~= old(out)@ + text_array_bytes(es));
    }
}

fn read_text_array(data: &Vec<u8>, pos: &mut usize) -> (r: Result<Vec<LocalizedText>, StatusCode>)
    ensures
        match parse_text_array(data@, *old(pos) as int) {
            Option::Some((v, np)) => match r {
                Result::Ok(ts) => texts_view(ts@) == v && *final(pos) as int == np,
                Result::Err(_) => false,
            },
            Option::None => r is Err,
        },
        r is Err ==> r == Err::<Vec<LocalizedText>, StatusCode>(StatusCode::BadDecodingError),
{
    let n = match read_u32(data, pos) {
        Option::Some(v) => v,
        Option::None => {
            return Err(StatusCode::BadDecodingError);
        },
    };
    if n > 0x7fffffff {
        return Err(StatusCode::BadDecodingError);
    }
    let ghost p1 = *pos as int;
    let mut out: Vec<LocalizedText> = Vec::new();
    let mut k: u32 = 0;
    proof {
        assert(texts_view(out@) =~= Seq::<LocalizedTextModel>::empty());
    }
    while k < n
        invariant
            k <= n,
            n <= 0x7fffffff,
            out@.len() == k as nat,
            parse_u32(data@, *old(pos) as int) == Option::Some((n, p1)),
            parse_texts(data@, p1, k as int) == Option::Some((texts_view(out@), *pos as int)),
        decreases n - k,
    {
        let ghost before_pos = *pos as int;
        let ghost done = texts_view(out@);
        let e = match read_localized_text(data, pos) {
            Result::Ok(e) => e,
            Result::Err(err) => {
                proof {
                    lemma_parse_texts_split(data@, p1, k as int, n as int - k as int);
                    assert(parse_texts(data@, before_pos, n as int - k as int) is None);
                    assert(parse_texts(data@, p1, n as int) is None);
                }
                return Err(err);
            },
        };
        let ghost em = e@;
        out.push(e);
        k = k + 1;
        proof {
            lemma_parse_texts_split(data@, p1, k as int - 1, 1);
            assert(parse_localized_text(data@, before_pos) == Option::Some((em, *pos as int)));
            assert(parse_texts(data@, *pos as int, 0) == Option::Some(
                (Seq::<LocalizedTextModel>::empty(), *pos as int),
            ));
            assert(parse_texts(data@, before_pos, 1) == Option::Some(
                (seq![em] + Seq::<LocalizedTextModel>::empty(), *pos as int),
            ));
            assert(seq![em] + Seq::<LocalizedTextModel>::empty() =~= seq![em]);
            assert(texts_view(out@) =~= done + seq![em]);
        }
    }
    Ok(out)
}

/// Round trip at a position: the encodings of the strings from `i` on
/// parse back to exactly those strings.
pub proof fn lemma_parse_strings_at(s: Seq<u8>, p: int, ss: Seq<Option<Seq<u8>>>, i: int)
    requires
        0 <= p,
        0 <= i <= ss.len(),
        forall|j: int| 0 <= j < ss.len() ==> bytestring_wf(#[trigger] ss[j]),
        p + strings_bytes_from(ss, i).len() <= s.len(),
        s.subrange(p, p + strings_bytes_from(ss, i).len()) == strings_bytes_from(ss, i),
    ensures
        parse_strings(s, p, ss.len() - i) == Option::Some(
            (ss.skip(i), p + strings_bytes_from(ss, i).len()),
        ),
    decreases ss.len() - i,
{
    if i == ss.len() {
        assert(ss.skip(i) =~= Seq::<Option<Seq<u8>>>::empty());
    } else {
        let enc = strings_bytes_from(ss, i);
        let eb = bytestring_bytes(ss[i]);
        let tail = strings_bytes_from(ss, i + 1);
        assert(enc == eb + tail);
        assert forall|k: int| 0 <= k < eb.len() implies #[trigger] eb[k] == enc[k] by {}
        crate::encoding::lemma_subrange_part(s, p, 0, enc, eb);
        crate::encoding::lemma_parse_bytestring_at(s, p, ss[i]);
        assert forall|k: int| 0 <= k < tail.len() implies #[trigger] tail[k] == enc[eb.len()
            + k] by {}
        crate::encoding::lemma_subrange_part(s, p, eb.len() as int, enc, tail);
        lemma_parse_strings_at(s, p + eb.len(), ss, i + 1);
        assert(seq![ss[i]] + ss.skip(i + 1) =~= ss.skip(i));
    }
}

/// Round trip at a position: the encodings of the localized texts from `i`
/// on parse back to exactly those texts.
pub proof fn lemma_parse_texts_at(s: Seq<u8>, p: int, ts: Seq<LocalizedTextModel>, i: int)
    requires
        0 <= p,
        0 <= i <= ts.len(),
        forall|j: int| 0 <= j < ts.len() ==> localized_text_wf(#[trigger] ts[j]),
        p + texts_bytes_from(ts, i).len() <= s.len(),
        s.subrange(p, p + texts_bytes_from(ts, i).len()) == texts_bytes_from(ts, i),
    ensures
        parse_texts(s, p, ts.len() - i) == Option::Some(
            (ts.skip(i), p + texts_bytes_from(ts, i).len()),
        ),
    decreases ts.len() - i,
{
    if i == ts.len() {
        assert(ts.skip(i) =~= Seq::<LocalizedTextModel>::empty());
    } else {
        let enc = texts_bytes_from(ts, i);
        let eb = localized_text_bytes(ts[i]);
        let tail = texts_bytes_from(ts, i + 1);
        assert(enc == eb + tail);
        assert forall|k: int| 0 <= k < eb.len() implies #[trigger] eb[k] == enc[k] by {}
        crate::encoding::lemma_subrange_part(s, p, 0, enc, eb);
        crate::codec::lemma_parse_localized_text_at(s, p, ts[i]);
        assert forall|k: int| 0 <= k < tail.len() implies #[trigger] tail[k] == enc[eb.len()
            + k] by {}
        crate::encoding::lemma_subrange_part(s, p, eb.len() as int, enc, tail);
        lemma_parse_texts_at(s, p + eb.len(), ts, i + 1);
        assert(seq![ts[i]] + ts.skip(i + 1) =~= ts.skip(i));
    }
}

/// Round trip at a position: an encoded string array parses back to it.
pub proof fn lemma_parse_string_array_at(s: Seq<u8>, p: int, ss: Seq<Option<Seq<u8>>>)
    requires
        0 <= p,
        string_array_wf(ss),
        p + string_array_bytes(ss).len() <= s.len(),
        s.subrange(p, p + string_array_bytes(ss).len()) == string_array_bytes(ss),
    ensures
        parse_string_array(s, p) == Option::Some((ss, p + string_array_bytes(ss).len())),
{
    let enc = string_array_bytes(ss);
    let n = ss.len() as u32;
    let cb = u32_le_bytes(n);
    let body = strings_bytes_from(ss, 0);
    assert forall|i: int| 0 <= i < cb.len() implies #[trigger] cb[i] == enc[i] by {}
    crate::encoding::lemma_subrange_part(s, p, 0, enc, cb);
    crate::encoding::lemma_parse_u32_at(s, p, n);
    assert forall|i: int| 0 <= i < body.len() implies #[trigger] body[i] == enc[4 + i] by {}
    crate::encoding::lemma_subrange_part(s, p, 4, enc, body);
    lemma_parse_strings_at(s, p + 4, ss, 0);
    assert(ss.skip(0) =~= ss);
}

/// Round trip at a position: an encoded localized text array parses back
/// to it.
pub proof fn lemma_parse_text_array_at(s: Seq<u8>, p: int, ts: Seq<LocalizedTextModel>)
    requires
        0 <= p,
        text_array_wf(ts),
        p + text_array_bytes(ts).len() <= s.len(),
        s.subrange(p, p + text_array_bytes(ts).len()) == text_array_bytes(ts),
    ensures
        parse_text_array(s, p) == Option::Some((ts, p + text_array_bytes(ts).len())),
{
    let enc = text_array_bytes(ts);
    let n = ts.len() as u32;
    let cb = u32_le_bytes(n);
    let body = texts_bytes_from(ts, 0);
    assert forall|i: int| 0 <= i < cb.len() implies #[trigger] cb[i] == enc[i] by {}
    crate::encoding::lemma_subrange_part(s, p, 0, enc, cb);
    crate::encoding::lemma_parse_u32_at(s, p, n);
    assert forall|i: int| 0 <= i < body.len() implies #[trigger] body[i] == enc[4 + i] by {}
    crate::encoding::lemma_subrange_part(s, p, 4, enc, body);
    lemma_parse_texts_at(s, p + 4, ts, 0);
    assert(ts.skip(0) =~= ts);
}

/// Round trip at a position: an encoded application type parses back to it.
pub proof fn lemma_parse_application_type_at(s: Seq<u8>, p: int, t: ApplicationType)
    requires
        0 <= p,
        p + 4 <= s.len(),
        s.subrange(p, p + 4) == u32_le_bytes(application_type_wire(t)),
    ensures
        parse_application_type(s, p) == Option::Some((t, p + 4)),
{
    crate::encoding::lemma_parse_u32_at(s, p, application_type_wire(t));
}

// ---------------------------------------------------------------------------
// RequestHeader
// ---------------------------------------------------------------------------

/// The common header of a service request. The timestamp is in
/// microseconds since an arbitrary epoch.
#[derive(Clone, PartialEq, Debug)]
pub struct RequestHeader {
    pub authentication_token: NodeId,
    pub timestamp: i64,
    pub request_handle: u32,
    pub return_diagnostics: u32,
    pub audit_entry_id: Option<Vec<u8>>,
    pub timeout_hint: u32,
    pub additional_header: ExtensionObject,
}

#[verifier::ext_equal]
pub ghost struct RequestHeaderModel {
    pub authentication_token: NodeId,
    pub timestamp: i64,
    pub request_handle: u32,
    pub return_diagnostics: u32,
    pub audit_entry_id: Option<Seq<u8>>,
    pub timeout_hint: u32,
    pub additional_header: ExtensionObjectModel,
}

impl View for RequestHeader {
    type V = RequestHeaderModel;

    open spec fn view(&self) -> RequestHeaderModel {
        RequestHeaderModel {
            authentication_token: self.authentication_token,
            timestamp: self.timestamp,
            request_handle: self.request_handle,
            return_diagnostics: self.return_diagnostics,
            audit_entry_id: match self.audit_entry_id {
                Option::Some(ref v) => Option::Some(v@),
                Option::None => Option::None,
            },
            timeout_hint: self.timeout_hint,
            additional_header: self.additional_header@,
        }
    }
}

pub open spec fn request_header_wf(h: RequestHeaderModel) -> bool {
    bytestring_wf(h.audit_entry_id) && extension_object_wf(h.additional_header)
}

pub open spec fn request_header_bytes(h: RequestHeaderModel) -> Seq<u8> {
    node_id_bytes(h.authentication_token) + i64_le_bytes(h.timestamp) + u32_le_bytes(
        h.request_handle,
    ) + u32_le_bytes(h.return_diagnostics) + bytestring_bytes(h.audit_entry_id) + u32_le_bytes(
        h.timeout_hint,
    ) + extension_object_bytes(h.additional_header)
}

pub open spec fn parse_request_header(s: Seq<u8>, p: int) -> Option<(RequestHeaderModel, int)> {
    match parse_node_id(s, p) {
        Option::None => Option::None,
        Option::Some((authentication_token, p1)) => match parse_i64(s, p1) {
            Option::None => Option::None,
            Option::Some((timestamp, p2)) => match parse_u32(s, p2) {
                Option::None => Option::None,
                Option::Some((request_handle, p3)) => match parse_u32(s, p3) {
                    Option::None => Option::None,
                    Option::Some((return_diagnostics, p4)) => match parse_bytestring(s, p4) {
                        Option::None => Option::None,
                        Option::Some((audit_entry_id, p5)) => match parse_u32(s, p5) {
                            Option::None => Option::None,
                            Option::Some((timeout_hint, p6)) => match parse_extension_object(
                                s,
                                p6,
                            ) {
                                Option::None => Option::None,
                                Option::Some((additional_header, p7)) => Option::Some(
                                    (
                                        RequestHeaderModel {
                                            authentication_token,
                                            timestamp,
                                            request_handle,
                                            return_diagnostics,
                                            audit_entry_id,
                                            timeout_hint,
                                            additional_header,
                                        },
                                        p7,
                                    ),
                                ),
                            },
                        },
                    },
                },
            },
        },
    }
}

impl RequestHeader {
    pub fn byte_len(&self) -> (size: usize)
        requires
            request_header_wf(self@),
            request_header_bytes(self@).len() <= usize::MAX,
        ensures
            size == request_header_bytes(self@).len(),
    {
        node_id_byte_len(&self.authentication_token) + 8 + 4 + 4 + bytestring_byte_len(
            &self.audit_entry_id,
        ) + 4 + extension_object_byte_len(&self.additional_header)
    }

    pub fn encode(&self, stream: &mut Vec<u8>) -> (size: usize)
        requires
            request_header_wf(self@),
            request_header_bytes(self@).len() <= usize::MAX,
        ensures
            final(stream)@ == old(stream)@ + request_header_bytes(self@),
            size == request_header_bytes(self@).len(),
    {
        let size = self.byte_len();
        write_node_id(stream, &self.authentication_token);
        write_i64(stream, self.timestamp);
        write_u32(stream, self.request_handle);
        write_u32(stream, self.return_diagnostics);
        write_bytestring(stream, &self.audit_entry_id);
        write_u32(stream, self.timeout_hint);
        write_extension_object(stream, &self.additional_header);
        proof {
            assert(stream@ =~= old(stream)@ + request_header_bytes(self@));
        }
        size
    }

    pub fn decode(data: &Vec<u8>, pos: &mut usize) -> (r: Result<RequestHeader, StatusCode>)
        ensures
            match parse_request_header(data@, *old(pos) as int) {
                Option::Some((v, np)) => match r {
                    Result::Ok(h) => h@ == v && *final(pos) as int == np,
                    Result::Err(_) => false,
                },
                Option::None => r is Err,
            },
            r is Err ==> r == Err::<RequestHeader, StatusCode>(StatusCode::BadDecodingError),
    {
        let authentication_token = match read_node_id(data, pos) {
            Result::Ok(v) => v,
            Result::Err(e) => {
                return Err(e);
            },
        };
        let timestamp = match read_i64(data, pos) {
            Option::Some(v) => v,
            Option::None => {
                return Err(StatusCode::BadDecodingError);
            },
        };
        let request_handle = match read_u32(data, pos) {
            Option::Some(v) => v,
            Option::None => {
                return Err(StatusCode::BadDecodingError);
            },
        };
        let return_diagnostics = match read_u32(data, pos) {
            Option::Some(v) => v,
            Option::None => {
                return Err(StatusCode::BadDecodingError);
            },
        };
        let audit_entry_id = match read_bytestring(data, pos) {
            Option::Some(v) => v,
            Option::None => {
                return Err(StatusCode::BadDecodingError);
            },
        };
        let timeout_hint = match read_u32(data, pos) {
            Option::Some(v) => v,
            Option::None => {
                return Err(StatusCode::BadDecodingError);
            },
        };
        let additional_header = match read_extension_object(data, pos) {
            Result::Ok(v) => v,
            Result::Err(e) => {
                return Err(e);
            },
        };
        Ok(
            RequestHeader {
                authentication_token,
                timestamp,
                request_handle,
                return_diagnostics,
                audit_entry_id,
                timeout_hint,
                additional_header,
            },
        )
    }
}

/// Round trip at a position: an encoded request header parses back to it.
#[verifier::rlimit(60)]
pub proof fn lemma_parse_request_header_at(s: Seq<u8>, p: int, h: RequestHeaderModel)
    requires
        0 <= p,
        request_header_wf(h),
        p + request_header_bytes(h).len() <= s.len(),
        s.subrange(p, p + request_header_bytes(h).len()) == request_header_bytes(h),
    ensures
        parse_request_header(s, p) == Option::Some((h, p + request_header_bytes(h).len())),
{
    let enc = request_header_bytes(h);
    let b1 = node_id_bytes(h.authentication_token);
    let b2 = i64_le_bytes(h.timestamp);
    let b3 = u32_le_bytes(h.request_handle);
    let b4 = u32_le_bytes(h.return_diagnostics);
    let b5 = bytestring_bytes(h.audit_entry_id);
    let b6 = u32_le_bytes(h.timeout_hint);
    let b7 = extension_object_bytes(h.additional_header);
    let d1 = b1.len() as int;
    let d2 = d1 + 8;
    let d3 = d2 + 4;
    let d4 = d3 + 4;
    let d5 = d4 + b5.len() as int;
    let d6 = d5 + 4;
    assert forall|i: int| 0 <= i < b1.len() implies #[trigger] b1[i] == enc[i] by {}
    crate::encoding::lemma_subrange_part(s, p, 0, enc, b1);
    crate::codec::lemma_parse_node_id_at(s, p, h.authentication_token);
    assert forall|i: int| 0 <= i < 8 implies #[trigger] b2[i] == enc[d1 + i] by {}
    crate::encoding::lemma_subrange_part(s, p, d1, enc, b2);
    crate::encoding::lemma_parse_i64_at(s, p + d1, h.timestamp);
    assert forall|i: int| 0 <= i < 4 implies #[trigger] b3[i] == enc[d2 + i] by {}
    crate::encoding::lemma_subrange_part(s, p, d2, enc, b3);
    crate::encoding::lemma_parse_u32_at(s, p + d2, h.request_handle);
    assert forall|i: int| 0 <= i < 4 implies #[trigger] b4[i] == enc[d3 + i] by {}
    crate::encoding::lemma_subrange_part(s, p, d3, enc, b4);
    crate::encoding::lemma_parse_u32_at(s, p + d3, h.return_diagnostics);
    assert forall|i: int| 0 <= i < b5.len() implies #[trigger] b5[i] == enc[d4 + i] by {}
    crate::encoding::lemma_subrange_part(s, p, d4, enc, b5);
    crate::encoding::lemma_parse_bytestring_at(s, p + d4, h.audit_entry_id);
    assert forall|i: int| 0 <= i < 4 implies #[trigger] b6[i] == enc[d5 + i] by {}
    crate::encoding::lemma_subrange_part(s, p, d5, enc, b6);
    crate::encoding::lemma_parse_u32_at(s, p + d5, h.timeout_hint);
    assert forall|i: int| 0 <= i < b7.len() implies #[trigger] b7[i] == enc[d6 + i] by {}
    crate::encoding::lemma_subrange_part(s, p, d6, enc, b7);
    crate::codec::lemma_parse_extension_object_at(s, p + d6, h.additional_header);
}

/// Round trip at a position: an encoded server description parses back to
/// it.
#[verifier::rlimit(60)]
pub proof fn lemma_parse_registered_server_at(s: Seq<u8>, p: int, m: RegisteredServerModel)
    requires
        0 <= p,
        registered_server_wf(m),
        p + registered_server_bytes(m).len() <= s.len(),
        s.subrange(p, p + registered_server_bytes(m).len()) == registered_server_bytes(m),
    ensures
        parse_registered_server(s, p) == Option::Some((m, p + registered_server_bytes(m).len())),
{
    let enc = registered_server_bytes(m);
    let b1 = bytestring_bytes(m.server_uri);
    let b2 = bytestring_bytes(m.product_uri);
    let b3 = text_array_bytes(m.server_names);
    let b4 = u32_le_bytes(application_type_wire(m.server_type));
    let b5 = bytestring_bytes(m.gateway_server_uri);
    let b6 = string_array_bytes(m.discovery_urls);
    let b7 = bytestring_bytes(m.semaphore_file_path);
    let d1 = b1.len() as int;
    let d2 = d1 + b2.len() as int;
    let d3 = d2 + b3.len() as int;
    let d4 = d3 + 4;
    let d5 = d4 + b5.len() as int;
    let d6 = d5 + b6.len() as int;
    let d7 = d6 + b7.len() as int;
    assert forall|i: int| 0 <= i < b1.len() implies #[trigger] b1[i] == enc[i] by {}
    crate::encoding::lemma_subrange_part(s, p, 0, enc, b1);
    crate::encoding::lemma_parse_bytestring_at(s, p, m.server_uri);
    assert forall|i: int| 0 <= i < b2.len() implies #[trigger] b2[i] == enc[d1 + i] by {}
    crate::encoding::lemma_subrange_part(s, p, d1, enc, b2);
    crate::encoding::lemma_parse_bytestring_at(s, p + d1, m.product_uri);
    assert forall|i: int| 0 <= i < b3.len() implies #[trigger] b3[i] == enc[d2 + i] by {}
    crate::encoding::lemma_subrange_part(s, p, d2, enc, b3);
    lemma_parse_text_array_at(s, p + d2, m.server_names);
    assert forall|i: int| 0 <= i < 4 implies #[trigger] b4[i] == enc[d3 + i] by {}
    crate::encoding::lemma_subrange_part(s, p, d3, enc, b4);
    lemma_parse_application_type_at(s, p + d3, m.server_type);
    assert forall|i: int| 0 <= i < b5.len() implies #[trigger] b5[i] == enc[d4 + i] by {}
    crate::encoding::lemma_subrange_part(s, p, d4, enc, b5);
    crate::encoding::lemma_parse_bytestring_at(s, p + d4, m.gateway_server_uri);
    assert forall|i: int| 0 <= i < b6.len() implies #[trigger] b6[i] == enc[d5 + i] by {}
    crate::encoding::lemma_subrange_part(s, p, d5, enc, b6);
    lemma_parse_string_array_at(s, p + d5, m.discovery_urls);
    assert forall|i: int| 0 <= i < b7.len() implies #[trigger] b7[i] == enc[d6 + i] by {}
    crate::encoding::lemma_subrange_part(s, p, d6, enc, b7);
    crate::encoding::lemma_parse_bytestring_at(s, p + d6, m.semaphore_file_path);
    assert(s[p + d7] == enc[d7]) by {
        assert(enc[d7] == s.subrange(p, p + enc.len())[d7]);
    }
    assert(enc[d7] == bool_byte(m.is_online));
}

/// Round trip: an encoded register-server request, whatever follows it,
/// parses back to the same value, consuming exactly its bytes.
pub proof fn lemma_register_server_request_round_trip(m: RegisterServerRequestModel, rest: Seq<u8>)
    requires
        register_server_request_wf(m),
    ensures
        parse_register_server_request(register_server_request_bytes(m) + rest, 0) == Option::Some(
            (m, register_server_request_bytes(m).len() as int),
        ),
{
    let s = register_server_request_bytes(m) + rest;
    let enc = register_server_request_bytes(m);
    let b1 = request_header_bytes(m.request_header);
    let b2 = registered_server_bytes(m.server);
    assert forall|i: int| 0 <= i < enc.len() implies s[i] == #[trigger] enc[i] by {}
    assert(s.subrange(0, enc.len() as int) =~= enc);
    assert forall|i: int| 0 <= i < b1.len() implies #[trigger] b1[i] == enc[i] by {}
    crate::encoding::lemma_subrange_part(s, 0, 0, enc, b1);
    lemma_parse_request_header_at(s, 0, m.request_header);
    assert forall|i: int| 0 <= i < b2.len() implies #[trigger] b2[i] == enc[b1.len() + i] by {}
    crate::encoding::lemma_subrange_part(s, 0, b1.len() as int, enc, b2);
    lemma_parse_registered_server_at(s, b1.len() as int, m.server);
}

// ---------------------------------------------------------------------------
// RegisteredServer
// ---------------------------------------------------------------------------

/// The server description a registration announces.
#[derive(Clone, PartialEq, Debug)]
pub struct RegisteredServer {
    pub server_uri: Option<Vec<u8>>,
    pub product_uri: Option<Vec<u8>>,
    pub server_names: Vec<LocalizedText>,
    pub server_type: ApplicationType,
    pub gateway_server_uri: Option<Vec<u8>>,
    pub discovery_urls: Vec<Option<Vec<u8>>>,
    pub semaphore_file_path: Option<Vec<u8>>,
    pub is_online: bool,
}

#[verifier::ext_equal]
pub ghost struct RegisteredServerModel {
    pub server_uri: Option<Seq<u8>>,
    pub product_uri: Option<Seq<u8>>,
    pub server_names: Seq<LocalizedTextModel>,
    pub server_type: ApplicationType,
    pub gateway_server_uri: Option<Seq<u8>>,
    pub discovery_urls: Seq<Option<Seq<u8>>>,
    pub semaphore_file_path: Option<Seq<u8>>,
    pub is_online: bool,
}

pub open spec fn opt_bytes_view(o: Option<Vec<u8>>) -> Option<Seq<u8>> {
    match o {
        Option::Some(v) => Option::Some(v@),
        Option::None => Option::None,
    }
}

impl View for RegisteredServer {
    type V = RegisteredServerModel;

    open spec fn view(&self) -> RegisteredServerModel {
        RegisteredServerModel {
            server_uri: opt_bytes_view(self.server_uri),
            product_uri: opt_bytes_view(self.product_uri),
            server_names: texts_view(self.server_names@),
            server_type: self.server_type,
            gateway_server_uri: opt_bytes_view(self.gateway_server_uri),
            discovery_urls: strings_view(self.discovery_urls@),
            semaphore_file_path: opt_bytes_view(self.semaphore_file_path),
            is_online: self.is_online,
        }
    }
}

pub open spec fn registered_server_wf(m: RegisteredServerModel) -> bool {
    &&& bytestring_wf(m.server_uri)
    &&& bytestring_wf(m.product_uri)
    &&& text_array_wf(m.server_names)
    &&& bytestring_wf(m.gateway_server_uri)
    &&& string_array_wf(m.discovery_urls)
    &&& bytestring_wf(m.semaphore_file_path)
}

pub open spec fn registered_server_bytes(m: RegisteredServerModel) -> Seq<u8> {
    bytestring_bytes(m.server_uri) + bytestring_bytes(m.product_uri) + text_array_bytes(
        m.server_names,
    ) + u32_le_bytes(application_type_wire(m.server_type)) + bytestring_bytes(
        m.gateway_server_uri,
    ) + string_array_bytes(m.discovery_urls) + bytestring_bytes(m.semaphore_file_path) + seq![
        bool_byte(m.is_online),
    ]
}

pub open spec fn parse_registered_server(s: Seq<u8>, p: int) -> Option<(
    RegisteredServerModel,
    int,
)> {
    match parse_bytestring(s, p) {
        Option::None => Option::None,
        Option::Some((server_uri, p1)) => match parse_bytestring(s, p1) {
            Option::None => Option::None,
            Option::Some((product_uri, p2)) => match parse_text_array(s, p2) {
                Option::None => Option::None,
                Option::Some((server_names, p3)) => match parse_application_type(s, p3) {
                    Option::None => Option::None,
                    Option::Some((server_type, p4)) => match parse_bytestring(s, p4) {
                        Option::None => Option::None,
                        Option::Some((gateway_server_uri, p5)) => match parse_string_array(s, p5) {
                            Option::None => Option::None,
                            Option::Some((discovery_urls, p6)) => match parse_bytestring(s, p6) {
                                Option::None => Option::None,
                                Option::Some((semaphore_file_path, p7)) => match parse_bool(
                                    s,
                                    p7,
                                ) {
                                    Option::None => Option::None,
                                    Option::Some((is_online, p8)) => Option::Some(
                                        (
                                            RegisteredServerModel {
                                                server_uri,
                                                product_uri,
                                                server_names,
                                                server_type,
                                                gateway_server_uri,
                                                discovery_urls,
                                                semaphore_file_path,
                                                is_online,
                                            },
                                            p8,
                                        ),
                                    ),
                                },
                            },
                        },
                    },
                },
            },
        },
    }
}

impl RegisteredServer {
    pub fn byte_len(&self) -> (size: usize)
        requires
            registered_server_wf(self@),
            registered_server_bytes(self@).len() <= usize::MAX,
        ensures
            size == registered_server_bytes(self@).len(),
    {
        bytestring_byte_len(&self.server_uri) + bytestring_byte_len(&self.product_uri)
            + text_array_byte_len(&self.server_names) + 4 + bytestring_byte_len(
            &self.gateway_server_uri,
        ) + string_array_byte_len(&self.discovery_urls) + bytestring_byte_len(
            &self.semaphore_file_path,
        ) + 1
    }

    #[verifier::rlimit(100)]
    pub fn encode(&self, stream: &mut Vec<u8>) -> (size: usize)
        requires
            registered_server_wf(self@),
            registered_server_bytes(self@).len() <= usize::MAX,
        ensures
            final(stream)@ == old(stream)@ + registered_server_bytes(self@),
            size == registered_server_bytes(self@).len(),
    {
        let size = self.byte_len();
        write_bytestring(stream, &self.server_uri);
        write_bytestring(stream, &self.product_uri);
        write_text_array(stream, &self.server_names);
        let ghost half = stream@;
        write_application_type(stream, self.server_type);
        write_bytestring(stream, &self.gateway_server_uri);
        write_string_array(stream, &self.discovery_urls);
        write_bytestring(stream, &self.semaphore_file_path);
        write_bool(stream, self.is_online);
        proof {
            assert(half =~= old(stream)@ + bytestring_bytes(self@.server_uri) + bytestring_bytes(
                self@.product_uri,
            ) + text_array_bytes(self@.server_names));
            assert(stream@ =~= half + u32_le_bytes(application_type_wire(self@.server_type))
                + bytestring_bytes(self@.gateway_server_uri) + string_array_bytes(
                self@.discovery_urls,
            ) + bytestring_bytes(self@.semaphore_file_path) + seq![bool_byte(self@.is_online)]);
            assert(stream@ =~= old(stream)@ + registered_server_bytes(self@));
        }
        size
    }

    pub fn decode(data: &Vec<u8>, pos: &mut usize) -> (r: Result<RegisteredServer, StatusCode>)
        ensures
            match parse_registered_server(data@, *old(pos) as int) {
                Option::Some((v, np)) => match r {
                    Result::Ok(m) => m@ == v && *final(pos) as int == np,
                    Result::Err(_) => false,
                },
                Option::None => r is Err,
            },
            r is Err ==> r == Err::<RegisteredServer, StatusCode>(StatusCode::BadDecodingError),
    {
        let server_uri = match read_bytestring(data, pos) {
            Option::Some(v) => v,
            Option::None => {
                return Err(StatusCode::BadDecodingError);
            },
        };
        let product_uri = match read_bytestring(data, pos) {
            Option::Some(v) => v,
            Option::None => {
                return Err(StatusCode::BadDecodingError);
            },
        };
        let server_names = match read_text_array(data, pos) {
            Result::Ok(v) => v,
            Result::Err(e) => {
                return Err(e);
            },
        };
        let server_type = match read_application_type(data, pos) {
            Result::Ok(v) => v,
            Result::Err(e) => {
                return Err(e);
            },
        };
        let gateway_server_uri = match read_bytestring(data, pos) {
            Option::Some(v) => v,
            Option::None => {
                return Err(StatusCode::BadDecodingError);
            },
        };
        let discovery_urls = match read_string_array(data, pos) {
            Result::Ok(v) => v,
            Result::Err(e) => {
                return Err(e);
            },
        };
        let semaphore_file_path = match read_bytestring(data, pos) {
            Option::Some(v) => v,
            Option::None => {
                return Err(StatusCode::BadDecodingError);
            },
        };
        let is_online = match read_bool(data, pos) {
            Option::Some(v) => v,
            Option::None => {
                return Err(StatusCode::BadDecodingError);
            },
        };
        Ok(
            RegisteredServer {
                server_uri,
                product_uri,
                server_names,
                server_type,
                gateway_server_uri,
                discovery_urls,
                semaphore_file_path,
                is_online,
            },
        )
    }
}

// ---------------------------------------------------------------------------
// RegisterServerRequest
// ---------------------------------------------------------------------------

/// A request to register a server with a discovery server.
#[derive(Clone, PartialEq, Debug)]
pub struct RegisterServerRequest {
    pub request_header: RequestHeader,
    pub server: RegisteredServer,
}

#[verifier::ext_equal]
pub ghost struct RegisterServerRequestModel {
    pub request_header: RequestHeaderModel,
    pub server: RegisteredServerModel,
}

impl View for RegisterServerRequest {
    type V = RegisterServerRequestModel;

    open spec fn view(&self) -> RegisterServerRequestModel {
        RegisterServerRequestModel {
            request_header: self.request_header@,
            server: self.server@,
        }
    }
}

pub open spec fn register_server_request_wf(m: RegisterServerRequestModel) -> bool {
    request_header_wf(m.request_header) && registered_server_wf(m.server)
}

pub open spec fn register_server_request_bytes(m: RegisterServerRequestModel) -> Seq<u8> {
    request_header_bytes(m.request_header) + registered_server_bytes(m.server)
}

pub open spec fn parse_register_server_request(s: Seq<u8>, p: int) -> Option<(
    RegisterServerRequestModel,
    int,
)> {
    match parse_request_header(s, p) {
        Option::None => Option::None,
        Option::Some((request_header, p1)) => match parse_registered_server(s, p1) {
            Option::None => Option::None,
            Option::Some((server, p2)) => Option::Some(
                (RegisterServerRequestModel { request_header, server }, p2),
            ),
        },
    }
}

impl RegisterServerRequest {
    pub fn object_id(&self) -> (r: ObjectId)
        ensures
            r == ObjectId::RegisterServerRequestEncodingDefaultBinary,
    {
        ObjectId::RegisterServerRequestEncodingDefaultBinary
    }

    pub fn byte_len(&self) -> (size: usize)
        requires
            register_server_request_wf(self@),
            register_server_request_bytes(self@).len() <= usize::MAX,
        ensures
            size == register_server_request_bytes(self@).len(),
    {
        self.request_header.byte_len() + self.server.byte_len()
    }

    pub fn encode(&self, stream: &mut Vec<u8>) -> (size: usize)
        requires
            register_server_request_wf(self@),
            register_server_request_bytes(self@).len() <= usize::MAX,
        ensures
            final(stream)@ == old(stream)@ + register_server_request_bytes(self@),
            size == register_server_request_bytes(self@).len(),
    {
        let n1 = self.request_header.encode(stream);
        let n2 = self.server.encode(stream);
        proof {
            assert(stream@ =~= old(stream)@ + register_server_request_bytes(self@));
        }
        n1 + n2
    }

    pub fn decode(data: &Vec<u8>, pos: &mut usize) -> (r: Result<RegisterServerRequest,
        StatusCode>)
        ensures
            match parse_register_server_request(data@, *old(pos) as int) {
                Option::Some((v, np)) => match r {
                    Result::Ok(m) => m@ == v && *final(pos) as int == np,
                    Result::Err(_) => false,
                },
                Option::None => r is Err,
            },
            r is Err ==> r == Err::<RegisterServerRequest, StatusCode>(
                StatusCode::BadDecodingError,
            ),
    {
        let request_header = match RequestHeader::decode(data, pos) {
            Result::Ok(v) => v,
            Result::Err(e) => {
                return Err(e);
            },
        };
        let server = match RegisteredServer::decode(data, pos) {
            Result::Ok(v) => v,
            Result::Err(e) => {
                return Err(e);
            },
        };
        Ok(RegisterServerRequest { request_header, server })
    }
}

} // verus!
