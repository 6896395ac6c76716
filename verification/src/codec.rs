//! Wire codecs of the basic types the service payloads are built from:
//! node ids in their two-byte, four-byte and numeric formats, and qualified
//! names.

use vstd::prelude::*;
use crate::encoding::{
    bytestring_bytes, bytestring_wf, parse_bytestring, parse_u16, parse_u32, parse_u8,
    read_bytestring, read_u16, read_u32, read_u8, u16_le_bytes, u32_le_bytes, write_bytestring,
    write_u16, write_u32, write_u8,
};
use crate::types::{ExtensionObject, LocalizedText, NodeId, QualifiedName, StatusCode};

verus! {

// ---------------------------------------------------------------------------
// NodeId
// ---------------------------------------------------------------------------

/// Canonical node id encoding: the smallest of the two-byte, four-byte and
/// numeric formats that holds the id.
pub open spec fn node_id_bytes(id: NodeId) -> Seq<u8> {
    if id.namespace == 0 && id.value <= 0xff {
        seq![0u8, id.value as u8]
    } else if id.namespace <= 0xff && id.value <= 0xffff {
        seq![1u8, id.namespace as u8] + u16_le_bytes(id.value as u16)
    } else {
        seq![2u8] + u16_le_bytes(id.namespace) + u32_le_bytes(id.value)
    }
}

/// The decoder accepts any of the three formats, canonical or not.
pub open spec fn parse_node_id(s: Seq<u8>, p: int) -> Option<(NodeId, int)> {
    match parse_u8(s, p) {
        Option::None => Option::None,
        Option::Some((fmt, p1)) => if fmt == 0 {
            match parse_u8(s, p1) {
                Option::None => Option::None,
                Option::Some((b, p2)) => Option::Some(
                    (NodeId { namespace: 0, value: b as u32 }, p2),
                ),
            }
        } else if fmt == 1 {
            match parse_u8(s, p1) {
                Option::None => Option::None,
                Option::Some((ns, p2)) => match parse_u16(s, p2) {
                    Option::None => Option::None,
                    Option::Some((v, p3)) => Option::Some(
                        (NodeId { namespace: ns as u16, value: v as u32 }, p3),
                    ),
                },
            }
        } else if fmt == 2 {
            match parse_u16(s, p1) {
                Option::None => Option::None,
                Option::Some((ns, p2)) => match parse_u32(s, p2) {
                    Option::None => Option::None,
                    Option::Some((v, p3)) => Option::Some((NodeId { namespace: ns, value: v }, p3)),
                },
            }
        } else {
            Option::None
        },
    }
}

pub fn node_id_byte_len(id: &NodeId) -> (size: usize)
    ensures
        size == node_id_bytes(*id).len(),
{
    if id.namespace == 0 && id.value <= 0xff {
        2
    } else if id.namespace <= 0xff && id.value <= 0xffff {
        4
    } else {
        7
    }
}

pub fn write_node_id(out: &mut Vec<u8>, id: &NodeId)
    ensures
        final(out)@ == old(out)@ + node_id_bytes(*id),
{
    if id.namespace == 0 && id.value <= 0xff {
        write_u8(out, 0);
        write_u8(out, id.value as u8);
        proof {
            assert(out@ =~= old(out)@ + node_id_bytes(*id));
        }
    } else if id.namespace <= 0xff && id.value <= 0xffff {
        write_u8(out, 1);
        write_u8(out, id.namespace as u8);
        write_u16(out, id.value as u16);
        proof {
            assert(out@ =~= old(out)@ + node_id_bytes(*id));
        }
    } else {
        write_u8(out, 2);
        write_u16(out, id.namespace);
        write_u32(out, id.value);
        proof {
            assert(out@ =~= old(out)@ + node_id_bytes(*id));
        }
    }
}

pub fn read_node_id(data: &Vec<u8>, pos: &mut usize) -> (r: Result<NodeId, StatusCode>)
    ensures
        match parse_node_id(data@, *old(pos) as int) {
            Option::Some((v, np)) => r == Ok::<NodeId, StatusCode>(v) && *final(pos) as int == np,
            Option::None => r is Err,
        },
        r is Err ==> r == Err::<NodeId, StatusCode>(StatusCode::BadDecodingError),
{
    let fmt = match read_u8(data, pos) {
        Option::Some(b) => b,
        Option::None => {
            return Err(StatusCode::BadDecodingError);
        },
    };
    if fmt == 0 {
        match read_u8(data, pos) {
            Option::Some(b) => Ok(NodeId { namespace: 0, value: b as u32 }),
            Option::None => Err(StatusCode::BadDecodingError),
        }
    } else if fmt == 1 {
        let ns = match read_u8(data, pos) {
            Option::Some(b) => b,
            Option::None => {
                return Err(StatusCode::BadDecodingError);
            },
        };
        match read_u16(data, pos) {
            Option::Some(v) => Ok(NodeId { namespace: ns as u16, value: v as u32 }),
            Option::None => Err(StatusCode::BadDecodingError),
        }
    } else if fmt == 2 {
        let ns = match read_u16(data, pos) {
            Option::Some(v) => v,
            Option::None => {
                return Err(StatusCode::BadDecodingError);
            },
        };
        match read_u32(data, pos) {
            Option::Some(v) => Ok(NodeId { namespace: ns, value: v }),
            Option::None => Err(StatusCode::BadDecodingError),
        }
    } else {
        Err(StatusCode::BadDecodingError)
    }
}

/// Round trip at a position: bytes that hold a node id encoding parse back
/// to the same id.
pub proof fn lemma_parse_node_id_at(s: Seq<u8>, p: int, id: NodeId)
    requires
        0 <= p,
        p + node_id_bytes(id).len() <= s.len(),
        s.subrange(p, p + node_id_bytes(id).len()) == node_id_bytes(id),
    ensures
        parse_node_id(s, p) == Option::Some((id, p + node_id_bytes(id).len())),
{
    let e = node_id_bytes(id);
    assert forall|i: int| 0 <= i < e.len() implies s[p + i] == #[trigger] e[i] by {
        assert(e[i] == s.subrange(p, p + e.len())[i]);
    }
    if id.namespace == 0 && id.value <= 0xff {
        let v = id.value;
        assert(e[0] == 0u8 && e[1] == (v as u8));
        assert(s[p] == 0u8);
        assert(s[p + 1] == (v as u8));
        assert(((v as u8) as u32) == v) by (bit_vector)
            requires
                v <= 0xff,
        ;
    } else if id.namespace <= 0xff && id.value <= 0xffff {
        let ns = id.namespace;
        let v = id.value;
        assert(e[0] == 1u8 && e[1] == (ns as u8) && e[2] == u16_le_bytes(v as u16)[0] && e[3]
            == u16_le_bytes(v as u16)[1]);
        assert(s[p] == 1u8);
        assert(s[p + 1] == (ns as u8));
        assert(s[p + 2] == u16_le_bytes(v as u16)[0]);
        assert(s[p + 3] == u16_le_bytes(v as u16)[1]);
        crate::encoding::lemma_u16_le_round_trip(v as u16);
        assert(((ns as u8) as u16) == ns) by (bit_vector)
            requires
                ns <= 0xff,
        ;
        assert(((v as u16) as u32) == v) by (bit_vector)
            requires
                v <= 0xffff,
        ;
    } else {
        assert(e[0] == 2u8 && e[1] == u16_le_bytes(id.namespace)[0] && e[2] == u16_le_bytes(
            id.namespace,
        )[1] && e[3] == u32_le_bytes(id.value)[0] && e[4] == u32_le_bytes(id.value)[1] && e[5]
            == u32_le_bytes(id.value)[2] && e[6] == u32_le_bytes(id.value)[3]);
        assert(s[p] == 2u8);
        assert(s[p + 1] == u16_le_bytes(id.namespace)[0]);
        assert(s[p + 2] == u16_le_bytes(id.namespace)[1]);
        assert(s[p + 3] == u32_le_bytes(id.value)[0]);
        assert(s[p + 4] == u32_le_bytes(id.value)[1]);
        assert(s[p + 5] == u32_le_bytes(id.value)[2]);
        assert(s[p + 6] == u32_le_bytes(id.value)[3]);
        crate::encoding::lemma_u16_le_round_trip(id.namespace);
        crate::encoding::lemma_u32_le_round_trip(id.value);
    }
}

// ---------------------------------------------------------------------------
// QualifiedName
// ---------------------------------------------------------------------------

/// The ghost shape of a qualified name.
#[verifier::ext_equal]
pub ghost struct QualifiedNameModel {
    pub namespace_index: u16,
    pub name: Option<Seq<u8>>,
}

impl View for QualifiedName {
    type V = QualifiedNameModel;

    open spec fn view(&self) -> QualifiedNameModel {
        QualifiedNameModel {
            namespace_index: self.namespace_index,
            name: match self.name {
                Option::Some(ref v) => Option::Some(v@),
                Option::None => Option::None,
            },
        }
    }
}

pub open spec fn qualified_name_wf(q: QualifiedNameModel) -> bool {
    bytestring_wf(q.name)
}

pub open spec fn qualified_name_bytes(q: QualifiedNameModel) -> Seq<u8> {
    u16_le_bytes(q.namespace_index) + bytestring_bytes(q.name)
}

pub open spec fn parse_qualified_name(s: Seq<u8>, p: int) -> Option<(QualifiedNameModel, int)> {
    match parse_u16(s, p) {
        Option::None => Option::None,
        Option::Some((namespace_index, p1)) => match parse_bytestring(s, p1) {
            Option::None => Option::None,
            Option::Some((name, p2)) => Option::Some(
                (QualifiedNameModel { namespace_index, name }, p2),
            ),
        },
    }
}

pub fn qualified_name_byte_len(q: &QualifiedName) -> (size: usize)
    requires
        qualified_name_wf(q@),
    ensures
        size == qualified_name_bytes(q@).len(),
{
    match &q.name {
        Option::None => 6,
        Option::Some(v) => 6 + v.len(),
    }
}

pub fn write_qualified_name(out: &mut Vec<u8>, q: &QualifiedName)
    requires
        qualified_name_wf(q@),
    ensures
        final(out)@ == old(out)@ + qualified_name_bytes(q@),
{
    write_u16(out, q.namespace_index);
    write_bytestring(out, &q.name);
    proof {
        assert(out@ =~= old(out)@ + qualified_name_bytes(q@));
    }
}

pub fn read_qualified_name(data: &Vec<u8>, pos: &mut usize) -> (r: Result<
    QualifiedName,
    StatusCode,
>)
    ensures
        match parse_qualified_name(data@, *old(pos) as int) {
            Option::Some((v, np)) => match r {
                Result::Ok(q) => q@ == v && *final(pos) as int == np,
                Result::Err(_) => false,
            },
            Option::None => r is Err,
        },
        r is Err ==> r == Err::<QualifiedName, StatusCode>(StatusCode::BadDecodingError),
{
    let namespace_index = match read_u16(data, pos) {
        Option::Some(v) => v,
        Option::None => {
            return Err(StatusCode::BadDecodingError);
        },
    };
    let name = match read_bytestring(data, pos) {
        Option::Some(b) => b,
        Option::None => {
            return Err(StatusCode::BadDecodingError);
        },
    };
    Ok(QualifiedName { namespace_index, name })
}

/// Round trip at a position: an encoded qualified name parses back to it.
pub proof fn lemma_parse_qualified_name_at(s: Seq<u8>, p: int, q: QualifiedNameModel)
    requires
        0 <= p,
        qualified_name_wf(q),
        p + qualified_name_bytes(q).len() <= s.len(),
        s.subrange(p, p + qualified_name_bytes(q).len()) == qualified_name_bytes(q),
    ensures
        parse_qualified_name(s, p) == Option::Some((q, p + qualified_name_bytes(q).len())),
{
    let e = qualified_name_bytes(q);
    assert forall|i: int| 0 <= i < e.len() implies s[p + i] == #[trigger] e[i] by {
        assert(e[i] == s.subrange(p, p + e.len())[i]);
    }
    assert(s.subrange(p, p + 2) =~= u16_le_bytes(q.namespace_index)) by {
        assert forall|i: int| 0 <= i < 2 implies s.subrange(p, p + 2)[i] == #[trigger] u16_le_bytes(
            q.namespace_index,
        )[i] by {
            assert(e[i] == u16_le_bytes(q.namespace_index)[i]);
        }
    }
    crate::encoding::lemma_parse_u16_at(s, p, q.namespace_index);
    let bl = bytestring_bytes(q.name).len();
    assert(s.subrange(p + 2, p + 2 + bl) =~= bytestring_bytes(q.name)) by {
        assert forall|i: int| 0 <= i < bl implies s.subrange(p + 2, p + 2 + bl)[i]
            == #[trigger] bytestring_bytes(q.name)[i] by {
            assert(e[2 + i] == bytestring_bytes(q.name)[i]);
            assert(s[p + (2 + i)] == e[2 + i]);
        }
    }
    crate::encoding::lemma_parse_bytestring_at(s, p + 2, q.name);
}

// ---------------------------------------------------------------------------
// LocalizedText
// ---------------------------------------------------------------------------

/// The ghost shape of a localized text.
#[verifier::ext_equal]
pub ghost struct LocalizedTextModel {
    pub locale: Option<Seq<u8>>,
    pub text: Option<Seq<u8>>,
}

impl View for LocalizedText {
    type V = LocalizedTextModel;

    open spec fn view(&self) -> LocalizedTextModel {
        LocalizedTextModel {
            locale: match self.locale {
                Option::Some(ref v) => Option::Some(v@),
                Option::None => Option::None,
            },
            text: match self.text {
                Option::Some(ref v) => Option::Some(v@),
                Option::None => Option::None,
            },
        }
    }
}

pub open spec fn localized_text_wf(t: LocalizedTextModel) -> bool {
    bytestring_wf(t.locale) && bytestring_wf(t.text)
}

pub open spec fn presence_mask(t: LocalizedTextModel) -> u8 {
    match (t.locale, t.text) {
        (Option::None, Option::None) => 0u8,
        (Option::Some(_), Option::None) => 1u8,
        (Option::None, Option::Some(_)) => 2u8,
        (Option::Some(_), Option::Some(_)) => 3u8,
    }
}

/// A mask byte telling which parts are present, then each present part as a
/// length-prefixed byte string.
pub open spec fn localized_text_bytes(t: LocalizedTextModel) -> Seq<u8> {
    seq![presence_mask(t)] + (match t.locale {
        Option::Some(s) => u32_le_bytes(s.len() as u32) + s,
        Option::None => Seq::empty(),
    }) + (match t.text {
        Option::Some(s) => u32_le_bytes(s.len() as u32) + s,
        Option::None => Seq::empty(),
    })
}

/// Parses a localized text: only the two known mask bits are accepted, and
/// a part marked present must be a non-null byte string.
pub open spec fn parse_localized_text(s: Seq<u8>, p: int) -> Option<(LocalizedTextModel, int)> {
    match parse_u8(s, p) {
        Option::None => Option::None,
        Option::Some((mask, p1)) => if mask > 3 {
            Option::None
        } else {
            let after_locale: Option<(Option<Seq<u8>>, int)> = if mask & 1 == 1 {
                match parse_bytestring(s, p1) {
                    Option::Some((Option::Some(b), p2)) => Option::Some((Option::Some(b), p2)),
                    _ => Option::None,
                }
            } else {
                Option::Some((Option::None, p1))
            };
            match after_locale {
                Option::None => Option::None,
                Option::Some((locale, p2)) => if mask & 2 == 2 {
                    match parse_bytestring(s, p2) {
                        Option::Some((Option::Some(b), p3)) => Option::Some(
                            (LocalizedTextModel { locale, text: Option::Some(b) }, p3),
                        ),
                        _ => Option::None,
                    }
                } else {
                    Option::Some((LocalizedTextModel { locale, text: Option::None }, p2))
                },
            }
        },
    }
}

pub fn localized_text_byte_len(t: &LocalizedText) -> (size: usize)
    requires
        localized_text_wf(t@),
        localized_text_bytes(t@).len() <= usize::MAX,
    ensures
        size == localized_text_bytes(t@).len(),
{
    let mut size: usize = 1;
    match &t.locale {
        Option::Some(v) => {
            size = size + 4 + v.len();
        },
        Option::None => {},
    }
    match &t.text {
        Option::Some(v) => {
            size = size + 4 + v.len();
        },
        Option::None => {},
    }
    size
}

pub fn write_localized_text(out: &mut Vec<u8>, t: &LocalizedText)
    requires
        localized_text_wf(t@),
    ensures
        final(out)@ == old(out)@ + localized_text_bytes(t@),
{
    let mask: u8 = match (&t.locale, &t.text) {
        (Option::None, Option::None) => 0,
        (Option::Some(_), Option::None) => 1,
        (Option::None, Option::Some(_)) => 2,
        (Option::Some(_), Option::Some(_)) => 3,
    };
    write_u8(out, mask);
    match &t.locale {
        Option::Some(v) => {
            write_u32(out, v.len() as u32);
            write_bytes(out, v);
        },
        Option::None => {},
    }
    match &t.text {
        Option::Some(v) => {
            write_u32(out, v.len() as u32);
            write_bytes(out, v);
        },
        Option::None => {},
    }
    proof {
        assert(out@ =~= old(out)@ + localized_text_bytes(t@));
    }
}

pub fn read_localized_text(data: &Vec<u8>, pos: &mut usize) -> (r: Result<
    LocalizedText,
    StatusCode,
>)
    ensures
        match parse_localized_text(data@, *old(pos) as int) {
            Option::Some((v, np)) => match r {
                Result::Ok(t) => t@ == v && *final(pos) as int == np,
                Result::Err(_) => false,
            },
            Option::None => r is Err,
        },
        r is Err ==> r == Err::<LocalizedText, StatusCode>(StatusCode::BadDecodingError),
{
    let mask = match read_u8(data, pos) {
        Option::Some(b) => b,
        Option::None => {
            return Err(StatusCode::BadDecodingError);
        },
    };
    if mask > 3 {
        return Err(StatusCode::BadDecodingError);
    }
    let locale = if mask & 1 == 1 {
        match read_bytestring(data, pos) {
            Option::Some(Option::Some(v)) => Option::Some(v),
            _ => {
                return Err(StatusCode::BadDecodingError);
            },
        }
    } else {
        Option::None
    };
    let text = if mask & 2 == 2 {
        match read_bytestring(data, pos) {
            Option::Some(Option::Some(v)) => Option::Some(v),
            _ => {
                return Err(StatusCode::BadDecodingError);
            },
        }
    } else {
        Option::None
    };
    Ok(LocalizedText { locale, text })
}

/// Appends raw bytes, with no length prefix.
fn write_bytes(out: &mut Vec<u8>, v: &Vec<u8>)
    ensures
        final(out)@ == old(out)@ + v@,
{
    let mut i: usize = 0;
    while i < v.len()
        invariant
            i <= v.len(),
            out@ == old(out)@ + v@.subrange(0, i as int),
        decreases v.len() - i,
    {
        out.push(v[i]);
        i = i + 1;
        proof {
            assert(out@ =~= old(out)@ + v@.subrange(0, i as int));
        }
    }
    proof {
        assert(v@.subrange(0, v@.len() as int) =~= v@);
    }
}

/// Round trip at a position: an encoded localized text parses back to it.
pub proof fn lemma_parse_localized_text_at(s: Seq<u8>, p: int, t: LocalizedTextModel)
    requires
        0 <= p,
        localized_text_wf(t),
        p + localized_text_bytes(t).len() <= s.len(),
        s.subrange(p, p + localized_text_bytes(t).len()) == localized_text_bytes(t),
    ensures
        parse_localized_text(s, p) == Option::Some((t, p + localized_text_bytes(t).len())),
{
    let enc = localized_text_bytes(t);
    assert(s[p] == enc[0]) by {
        assert(enc[0] == s.subrange(p, p + enc.len())[0]);
    }
    match (t.locale, t.text) {
        (Option::None, Option::None) => {
            assert(0u8 & 1 == 0 && 0u8 & 2 == 0) by (bit_vector);
        },
        (Option::Some(l), Option::None) => {
            assert(1u8 & 1 == 1 && 1u8 & 2 == 0) by (bit_vector);
            let lb = bytestring_bytes(Option::Some(l));
            assert(u32_le_bytes(l.len() as u32) + l == lb);
            assert forall|i: int| 0 <= i < lb.len() implies #[trigger] lb[i] == enc[1 + i] by {}
            crate::encoding::lemma_subrange_part(s, p, 1, enc, lb);
            crate::encoding::lemma_parse_bytestring_at(s, p + 1, Option::Some(l));
        },
        (Option::None, Option::Some(tx)) => {
            assert(2u8 & 1 == 0 && 2u8 & 2 == 2) by (bit_vector);
            let tb = bytestring_bytes(Option::Some(tx));
            assert(u32_le_bytes(tx.len() as u32) + tx == tb);
            assert forall|i: int| 0 <= i < tb.len() implies #[trigger] tb[i] == enc[1 + i] by {}
            crate::encoding::lemma_subrange_part(s, p, 1, enc, tb);
            crate::encoding::lemma_parse_bytestring_at(s, p + 1, Option::Some(tx));
        },
        (Option::Some(l), Option::Some(tx)) => {
            assert(3u8 & 1 == 1 && 3u8 & 2 == 2) by (bit_vector);
            let lb = bytestring_bytes(Option::Some(l));
            assert(u32_le_bytes(l.len() as u32) + l == lb);
            assert forall|i: int| 0 <= i < lb.len() implies #[trigger] lb[i] == enc[1 + i] by {}
            crate::encoding::lemma_subrange_part(s, p, 1, enc, lb);
            crate::encoding::lemma_parse_bytestring_at(s, p + 1, Option::Some(l));
            let tb = bytestring_bytes(Option::Some(tx));
            assert(u32_le_bytes(tx.len() as u32) + tx == tb);
            assert forall|i: int| 0 <= i < tb.len() implies #[trigger] tb[i] == enc[1 + lb.len()
                + i] by {}
            crate::encoding::lemma_subrange_part(s, p, 1 + lb.len() as int, enc, tb);
            crate::encoding::lemma_parse_bytestring_at(s, p + 1 + lb.len(), Option::Some(tx));
        },
    }
}

// ---------------------------------------------------------------------------
// ExtensionObject
// ---------------------------------------------------------------------------

/// The ghost shape of an extension object.
#[verifier::ext_equal]
pub ghost struct ExtensionObjectModel {
    pub node_id: NodeId,
    pub body: Option<Seq<u8>>,
}

impl View for ExtensionObject {
    type V = ExtensionObjectModel;

    open spec fn view(&self) -> ExtensionObjectModel {
        ExtensionObjectModel {
            node_id: self.node_id,
            body: match self.body {
                Option::Some(ref v) => Option::Some(v@),
                Option::None => Option::None,
            },
        }
    }
}

pub open spec fn extension_object_wf(e: ExtensionObjectModel) -> bool {
    bytestring_wf(e.body)
}

/// The tag node id, then an encoding byte: zero for no body, one for a
/// binary body carried as a length-prefixed byte string.
pub open spec fn extension_object_bytes(e: ExtensionObjectModel) -> Seq<u8> {
    node_id_bytes(e.node_id) + (match e.body {
        Option::None => seq![0u8],
        Option::Some(b) => seq![1u8] + u32_le_bytes(b.len() as u32) + b,
    })
}

pub open spec fn parse_extension_object(s: Seq<u8>, p: int) -> Option<(ExtensionObjectModel, int)> {
    match parse_node_id(s, p) {
        Option::None => Option::None,
        Option::Some((node_id, p1)) => match parse_u8(s, p1) {
            Option::None => Option::None,
            Option::Some((enc, p2)) => if enc == 0 {
                Option::Some((ExtensionObjectModel { node_id, body: Option::None }, p2))
            } else if enc == 1 {
                match parse_bytestring(s, p2) {
                    Option::Some((Option::Some(b), p3)) => Option::Some(
                        (ExtensionObjectModel { node_id, body: Option::Some(b) }, p3),
                    ),
                    _ => Option::None,
                }
            } else {
                Option::None
            },
        },
    }
}

pub fn extension_object_byte_len(e: &ExtensionObject) -> (size: usize)
    requires
        extension_object_wf(e@),
    ensures
        size == extension_object_bytes(e@).len(),
{
    let base = node_id_byte_len(&e.node_id) + 1;
    match &e.body {
        Option::None => base,
        Option::Some(v) => base + 4 + v.len(),
    }
}

pub fn write_extension_object(out: &mut Vec<u8>, e: &ExtensionObject)
    requires
        extension_object_wf(e@),
    ensures
        final(out)@ == old(out)@ + extension_object_bytes(e@),
{
    write_node_id(out, &e.node_id);
    match &e.body {
        Option::None => {
            write_u8(out, 0);
        },
        Option::Some(v) => {
            write_u8(out, 1);
            write_u32(out, v.len() as u32);
            write_bytes(out, v);
        },
    }
    proof {
        assert(out@ =~= old(out)@ + extension_object_bytes(e@));
    }
}

pub fn read_extension_object(data: &Vec<u8>, pos: &mut usize) -> (r: Result<
    ExtensionObject,
    StatusCode,
>)
    ensures
        match parse_extension_object(data@, *old(pos) as int) {
            Option::Some((v, np)) => match r {
                Result::Ok(e) => e@ == v && *final(pos) as int == np,
                Result::Err(_) => false,
            },
            Option::None => r is Err,
        },
        r is Err ==> r == Err::<ExtensionObject, StatusCode>(StatusCode::BadDecodingError),
{
    let node_id = match read_node_id(data, pos) {
        Result::Ok(v) => v,
        Result::Err(e) => {
            return Err(e);
        },
    };
    let enc = match read_u8(data, pos) {
        Option::Some(b) => b,
        Option::None => {
            return Err(StatusCode::BadDecodingError);
        },
    };
    if enc == 0 {
        Ok(ExtensionObject { node_id, body: None })
    } else if enc == 1 {
        match read_bytestring(data, pos) {
            Option::Some(Option::Some(v)) => Ok(ExtensionObject { node_id, body: Some(v) }),
            _ => Err(StatusCode::BadDecodingError),
        }
    } else {
        Err(StatusCode::BadDecodingError)
    }
}

/// Round trip at a position: an encoded extension object parses back to it.
pub proof fn lemma_parse_extension_object_at(s: Seq<u8>, p: int, e: ExtensionObjectModel)
    requires
        0 <= p,
        extension_object_wf(e),
        p + extension_object_bytes(e).len() <= s.len(),
        s.subrange(p, p + extension_object_bytes(e).len()) == extension_object_bytes(e),
    ensures
        parse_extension_object(s, p) == Option::Some((e, p + extension_object_bytes(e).len())),
{
    let enc = extension_object_bytes(e);
    let nb = node_id_bytes(e.node_id);
    let d = nb.len() as int;
    assert forall|i: int| 0 <= i < nb.len() implies #[trigger] nb[i] == enc[i] by {}
    crate::encoding::lemma_subrange_part(s, p, 0, enc, nb);
    lemma_parse_node_id_at(s, p, e.node_id);
    assert(s[p + d] == enc[d]) by {
        assert(enc[d] == s.subrange(p, p + enc.len())[d]);
    }
    match e.body {
        Option::None => {
            assert(enc[d] == 0u8);
        },
        Option::Some(b) => {
            assert(enc[d] == 1u8);
            let bb = bytestring_bytes(Option::Some(b));
            assert(u32_le_bytes(b.len() as u32) + b == bb);
            assert forall|i: int| 0 <= i < bb.len() implies #[trigger] bb[i] == enc[d + 1 + i] by {}
            crate::encoding::lemma_subrange_part(s, p, d + 1, enc, bb);
            crate::encoding::lemma_parse_bytestring_at(s, p + d + 1, Option::Some(b));
        },
    }
}

} // verus!
