//! Browse path payload: a starting node and a relative path of elements,
//! each element naming a reference type, direction flags and a target name.

use vstd::prelude::*;
use crate::codec::{
    node_id_byte_len, node_id_bytes, parse_node_id, parse_qualified_name, qualified_name_byte_len,
    qualified_name_bytes, qualified_name_wf, read_node_id, read_qualified_name, write_node_id,
    write_qualified_name, QualifiedNameModel,
};
use crate::encoding::{
    bool_byte, parse_bool, parse_u32, read_bool, read_u32, u32_le_bytes, write_bool, write_u32,
};
use crate::types::{NodeId, ObjectId, QualifiedName, StatusCode};

verus! {

/// One hop of a relative path.
#[derive(Clone, PartialEq, Debug)]
pub struct RelativePathElement {
    pub reference_type_id: NodeId,
    pub is_inverse: bool,
    pub include_subtypes: bool,
    pub target_name: QualifiedName,
}

#[verifier::ext_equal]
pub ghost struct RelativePathElementModel {
    pub reference_type_id: NodeId,
    pub is_inverse: bool,
    pub include_subtypes: bool,
    pub target_name: QualifiedNameModel,
}

impl View for RelativePathElement {
    type V = RelativePathElementModel;

    open spec fn view(&self) -> RelativePathElementModel {
        RelativePathElementModel {
            reference_type_id: self.reference_type_id,
            is_inverse: self.is_inverse,
            include_subtypes: self.include_subtypes,
            target_name: self.target_name@,
        }
    }
}

/// The hops of a path, encoded with a leading element count.
#[derive(Clone, PartialEq, Debug)]
pub struct RelativePath {
    pub elements: Vec<RelativePathElement>,
}

#[verifier::ext_equal]
pub ghost struct RelativePathModel {
    pub elements: Seq<RelativePathElementModel>,
}

/// The ghost elements of an exec element vector.
pub open spec fn elements_view(es: Seq<RelativePathElement>) -> Seq<RelativePathElementModel> {
    es.map(|i: int, e: RelativePathElement| e@)
}

impl View for RelativePath {
    type V = RelativePathModel;

    open spec fn view(&self) -> RelativePathModel {
        RelativePathModel { elements: elements_view(self.elements@) }
    }
}

/// A browse path: where to start and how to walk.
#[derive(Clone, PartialEq, Debug)]
pub struct BrowsePath {
    pub starting_node: NodeId,
    pub relative_path: RelativePath,
}

#[verifier::ext_equal]
pub ghost struct BrowsePathModel {
    pub starting_node: NodeId,
    pub relative_path: RelativePathModel,
}

impl View for BrowsePath {
    type V = BrowsePathModel;

    open spec fn view(&self) -> BrowsePathModel {
        BrowsePathModel { starting_node: self.starting_node, relative_path: self.relative_path@ }
    }
}

// ---------------------------------------------------------------------------
// Encoding and parse specs
// ---------------------------------------------------------------------------

pub open spec fn relative_path_element_bytes(e: RelativePathElementModel) -> Seq<u8> {
    node_id_bytes(e.reference_type_id) + seq![bool_byte(e.is_inverse)] + seq![
        bool_byte(e.include_subtypes),
    ] + qualified_name_bytes(e.target_name)
}

/// The elements from index `i` on, one encoding after the other.
pub open spec fn elements_bytes_from(es: Seq<RelativePathElementModel>, i: int) -> Seq<u8>
    decreases es.len() - i,
{
    if i < 0 || i >= es.len() {
        Seq::empty()
    } else {
        relative_path_element_bytes(es[i]) + elements_bytes_from(es, i + 1)
    }
}

pub open spec fn relative_path_bytes(m: RelativePathModel) -> Seq<u8> {
    u32_le_bytes(m.elements.len() as u32) + elements_bytes_from(m.elements, 0)
}

pub open spec fn browse_path_bytes(m: BrowsePathModel) -> Seq<u8> {
    node_id_bytes(m.starting_node) + relative_path_bytes(m.relative_path)
}

/// Encodable paths: the element count fits a signed 32-bit count and every
/// target name is encodable.
pub open spec fn relative_path_wf(m: RelativePathModel) -> bool {
    &&& m.elements.len() <= 0x7fffffff
    &&& forall|i: int|
        0 <= i < m.elements.len() ==> qualified_name_wf((#[trigger] m.elements[i]).target_name)
}

pub open spec fn browse_path_wf(m: BrowsePathModel) -> bool {
    relative_path_wf(m.relative_path)
}

pub open spec fn parse_relative_path_element(s: Seq<u8>, p: int) -> Option<(
    RelativePathElementModel,
    int,
)> {
    match parse_node_id(s, p) {
        Option::None => Option::None,
        Option::Some((reference_type_id, p1)) => match parse_bool(s, p1) {
            Option::None => Option::None,
            Option::Some((is_inverse, p2)) => match parse_bool(s, p2) {
                Option::None => Option::None,
                Option::Some((include_subtypes, p3)) => match parse_qualified_name(s, p3) {
                    Option::None => Option::None,
                    Option::Some((target_name, p4)) => Option::Some(
                        (
                            RelativePathElementModel {
                                reference_type_id,
                                is_inverse,
                                include_subtypes,
                                target_name,
                            },
                            p4,
                        ),
                    ),
                },
            },
        },
    }
}

/// `count` elements, one after the other.
pub open spec fn parse_elements(s: Seq<u8>, p: int, count: int) -> Option<(
    Seq<RelativePathElementModel>,
    int,
)>
    decreases count,
{
    if count <= 0 {
        Option::Some((Seq::empty(), p))
    } else {
        match parse_relative_path_element(s, p) {
            Option::None => Option::None,
            Option::Some((e, p1)) => match parse_elements(s, p1, count - 1) {
                Option::None => Option::None,
                Option::Some((rest, p2)) => Option::Some((seq![e] + rest, p2)),
            },
        }
    }
}

pub open spec fn parse_relative_path(s: Seq<u8>, p: int) -> Option<(RelativePathModel, int)> {
    match parse_u32(s, p) {
        Option::None => Option::None,
        Option::Some((n, p1)) => if n <= 0x7fffffff {
            match parse_elements(s, p1, n as int) {
                Option::None => Option::None,
                Option::Some((elements, p2)) => Option::Some(
                    (RelativePathModel { elements }, p2),
                ),
            }
        } else {
            Option::None
        },
    }
}

pub open spec fn parse_browse_path(s: Seq<u8>, p: int) -> Option<(BrowsePathModel, int)> {
    match parse_node_id(s, p) {
        Option::None => Option::None,
        Option::Some((starting_node, p1)) => match parse_relative_path(s, p1) {
            Option::None => Option::None,
            Option::Some((relative_path, p2)) => Option::Some(
                (BrowsePathModel { starting_node, relative_path }, p2),
            ),
        },
    }
}

// ---------------------------------------------------------------------------
// RelativePathElement codec
// ---------------------------------------------------------------------------

impl RelativePathElement {
    pub fn byte_len(&self) -> (size: usize)
        requires
            qualified_name_wf(self@.target_name),
        ensures
            size == relative_path_element_bytes(self@).len(),
    {
        node_id_byte_len(&self.reference_type_id) + 2 + qualified_name_byte_len(&self.target_name)
    }

    pub fn encode(&self, stream: &mut Vec<u8>) -> (size: usize)
        requires
            qualified_name_wf(self@.target_name),
        ensures
            final(stream)@ == old(stream)@ + relative_path_element_bytes(self@),
            size == relative_path_element_bytes(self@).len(),
    {
        let ghost start = stream@;
        let n1 = node_id_byte_len(&self.reference_type_id);
        let n2 = qualified_name_byte_len(&self.target_name);
        write_node_id(stream, &self.reference_type_id);
        write_bool(stream, self.is_inverse);
        write_bool(stream, self.include_subtypes);
        write_qualified_name(stream, &self.target_name);
        proof {
            assert(stream@ =~= start + relative_path_element_bytes(self@));
        }
        n1 + 2 + n2
    }

    pub fn decode(data: &Vec<u8>, pos: &mut usize) -> (r: Result<RelativePathElement, StatusCode>)
        ensures
            match parse_relative_path_element(data@, *old(pos) as int) {
                Option::Some((v, np)) => match r {
                    Result::Ok(e) => e@ == v && *final(pos) as int == np,
                    Result::Err(_) => false,
                },
                Option::None => r is Err,
            },
            r is Err ==> r == Err::<RelativePathElement, StatusCode>(StatusCode::BadDecodingError),
    {
        let reference_type_id = match read_node_id(data, pos) {
            Result::Ok(v) => v,
            Result::Err(e) => {
                return Err(e);
            },
        };
        let is_inverse = match read_bool(data, pos) {
            Option::Some(v) => v,
            Option::None => {
                return Err(StatusCode::BadDecodingError);
            },
        };
        let include_subtypes = match read_bool(data, pos) {
            Option::Some(v) => v,
            Option::None => {
                return Err(StatusCode::BadDecodingError);
            },
        };
        let target_name = match read_qualified_name(data, pos) {
            Result::Ok(v) => v,
            Result::Err(e) => {
                return Err(e);
            },
        };
        Ok(RelativePathElement { reference_type_id, is_inverse, include_subtypes, target_name })
    }
}

// ---------------------------------------------------------------------------
// RelativePath codec
// ---------------------------------------------------------------------------

impl RelativePath {
    pub fn byte_len(&self) -> (size: usize)
        requires
            relative_path_wf(self@),
            relative_path_bytes(self@).len() <= usize::MAX,
        ensures
            size == relative_path_bytes(self@).len(),
    {
        let ghost es = self@.elements;
        let mut size: usize = 4;
        let mut i: usize = 0;
        while i < self.elements.len()
            invariant
                relative_path_wf(self@),
                relative_path_bytes(self@).len() <= usize::MAX,
                i <= self.elements.len(),
                es == self@.elements,
                size as int + elements_bytes_from(es, i as int).len() == relative_path_bytes(
                    self@,
                ).len(),
            decreases self.elements.len() - i,
        {
            proof {
                assert(elements_bytes_from(es, i as int) == relative_path_element_bytes(es[i as int])
                    + elements_bytes_from(es, i as int + 1));
                assert(self.elements@[i as int]@ == es[i as int]);
            }
            size = size + self.elements[i].byte_len();
            i = i + 1;
        }
        size
    }

    pub fn encode(&self, stream: &mut Vec<u8>) -> (size: usize)
        requires
            relative_path_wf(self@),
            relative_path_bytes(self@).len() <= usize::MAX,
        ensures
            final(stream)@ == old(stream)@ + relative_path_bytes(self@),
            size == relative_path_bytes(self@).len(),
    {
        let ghost es = self@.elements;
        let size = self.byte_len();
        write_u32(stream, self.elements.len() as u32);
        let mut i: usize = 0;
        while i < self.elements.len()
            invariant
                relative_path_wf(self@),
                i <= self.elements.len(),
                es == self@.elements,
                stream@ + elements_bytes_from(es, i as int) == old(stream)@ + relative_path_bytes(
                    self@,
                ),
            decreases self.elements.len() - i,
        {
            proof {
                assert(elements_bytes_from(es, i as int) == relative_path_element_bytes(es[i as int])
                    + elements_bytes_from(es, i as int + 1));
                assert(self.elements@[i as int]@ == es[i as int]);
            }
            let ghost before = stream@;
            let _ = self.elements[i].encode(stream);
            i = i + 1;
            proof {
                assert(stream@ + elements_bytes_from(es, i as int) =~= before
                    + elements_bytes_from(es, i as int - 1));
            }
        }
        proof {
            assert(stream@ + elements_bytes_from(es, self.elements@.len() as int) =~= stream@);
            assert(stream@ =~= old(stream)@ + relative_path_bytes(self@));
        }
        size
    }

    pub fn decode(data: &Vec<u8>, pos: &mut usize) -> (r: Result<RelativePath, StatusCode>)
        ensures
            match parse_relative_path(data@, *old(pos) as int) {
                Option::Some((v, np)) => match r {
                    Result::Ok(path) => path@ == v && *final(pos) as int == np,
                    Result::Err(_) => false,
                },
                Option::None => r is Err,
            },
            r is Err ==> r == Err::<RelativePath, StatusCode>(StatusCode::BadDecodingError),
    {
        let n = match read_u32(data, pos) {
            Option::Some(v) => v,
            Option::None => {
                return Err(StatusCode::BadDecodingError);
            },
        };
        if n > 0x7fffffff {
            return Err(StatusCode::BadDecodingError);
        }
        let ghost p1 = *pos as int;
        let mut elements: Vec<RelativePathElement> = Vec::new();
        let mut k: u32 = 0;
        proof {
            assert(elements_view(elements@) =~= Seq::<RelativePathElementModel>::empty());
        }
        while k < n
            invariant
                k <= n,
                n <= 0x7fffffff,
                elements@.len() == k as nat,
                parse_u32(data@, *old(pos) as int) == Option::Some((n, p1)),
                parse_elements(data@, p1, k as int) == Option::Some(
                    (elements_view(elements@), *pos as int),
                ),
            decreases n - k,
        {
            let ghost before_pos = *pos as int;
            let ghost done = elements_view(elements@);
            let e = match RelativePathElement::decode(data, pos) {
                Result::Ok(e) => e,
                Result::Err(err) => {
                    proof {
                        lemma_parse_elements_split(data@, p1, k as int, n as int - k as int);
                        assert(parse_elements(data@, before_pos, n as int - k as int) is None);
                        assert(parse_elements(data@, p1, n as int) is None);
                        assert(parse_u32(data@, *old(pos) as int) == Option::Some((n, p1)));
                        assert(parse_relative_path(data@, *old(pos) as int) is None);
                    }
                    return Err(err);
                },
            };
            elements.push(e);
            k = k + 1;
            proof {
                let em = e@;
                lemma_parse_elements_split(data@, p1, k as int - 1, 1);
                assert(parse_relative_path_element(data@, before_pos) == Option::Some(
                    (em, *pos as int),
                ));
                assert(parse_elements(data@, *pos as int, 0) == Option::Some(
                    (Seq::<RelativePathElementModel>::empty(), *pos as int),
                ));
                assert(parse_elements(data@, before_pos, 1) == Option::Some(
                    (seq![em] + Seq::<RelativePathElementModel>::empty(), *pos as int),
                ));
                assert(seq![em] + Seq::<RelativePathElementModel>::empty() =~= seq![em]);
                assert(elements_view(elements@) =~= done + seq![em]);
            }
        }
        proof {
            assert(parse_elements(data@, p1, n as int) == Option::Some(
                (elements_view(elements@), *pos as int),
            ));
        }
        Ok(RelativePath { elements })
    }
}

/// Round trip at a position: an encoded path element parses back to it.
pub proof fn lemma_parse_element_at(s: Seq<u8>, p: int, e: RelativePathElementModel)
    requires
        0 <= p,
        qualified_name_wf(e.target_name),
        p + relative_path_element_bytes(e).len() <= s.len(),
        s.subrange(p, p + relative_path_element_bytes(e).len()) == relative_path_element_bytes(e),
    ensures
        parse_relative_path_element(s, p) == Option::Some(
            (e, p + relative_path_element_bytes(e).len()),
        ),
{
    let enc = relative_path_element_bytes(e);
    let l1 = node_id_bytes(e.reference_type_id).len() as int;
    let lq = qualified_name_bytes(e.target_name).len() as int;
    assert forall|i: int| 0 <= i < enc.len() implies s[p + i] == #[trigger] enc[i] by {
        assert(enc[i] == s.subrange(p, p + enc.len())[i]);
    }
    assert(s.subrange(p, p + l1) =~= node_id_bytes(e.reference_type_id)) by {
        assert forall|i: int| 0 <= i < l1 implies s.subrange(p, p + l1)[i]
            == #[trigger] node_id_bytes(e.reference_type_id)[i] by {
            assert(enc[i] == node_id_bytes(e.reference_type_id)[i]);
        }
    }
    crate::codec::lemma_parse_node_id_at(s, p, e.reference_type_id);
    assert(s.subrange(p + l1, p + l1 + 1) =~= seq![bool_byte(e.is_inverse)]) by {
        assert(enc[l1] == bool_byte(e.is_inverse));
        assert(s.subrange(p + l1, p + l1 + 1)[0] == s[p + l1]);
    }
    crate::encoding::lemma_parse_bool_at(s, p + l1, e.is_inverse);
    assert(s.subrange(p + l1 + 1, p + l1 + 2) =~= seq![bool_byte(e.include_subtypes)]) by {
        assert(enc[l1 + 1] == bool_byte(e.include_subtypes));
        assert(s.subrange(p + l1 + 1, p + l1 + 2)[0] == s[p + (l1 + 1)]);
    }
    crate::encoding::lemma_parse_bool_at(s, p + l1 + 1, e.include_subtypes);
    assert(s.subrange(p + l1 + 2, p + l1 + 2 + lq) =~= qualified_name_bytes(e.target_name)) by {
        assert forall|i: int| 0 <= i < lq implies s.subrange(p + l1 + 2, p + l1 + 2 + lq)[i]
            == #[trigger] qualified_name_bytes(e.target_name)[i] by {
            assert(enc[l1 + 2 + i] == qualified_name_bytes(e.target_name)[i]);
            assert(s[p + (l1 + 2 + i)] == enc[l1 + 2 + i]);
        }
    }
    crate::codec::lemma_parse_qualified_name_at(s, p + l1 + 2, e.target_name);
}

/// Round trip at a position: the encodings of the elements from `i` on
/// parse back to exactly those elements.
pub proof fn lemma_parse_elements_at(s: Seq<u8>, p: int, es: Seq<RelativePathElementModel>, i: int)
    requires
        0 <= p,
        0 <= i <= es.len(),
        forall|j: int| 0 <= j < es.len() ==> qualified_name_wf((#[trigger] es[j]).target_name),
        p + elements_bytes_from(es, i).len() <= s.len(),
        s.subrange(p, p + elements_bytes_from(es, i).len()) == elements_bytes_from(es, i),
    ensures
        parse_elements(s, p, es.len() - i) == Option::Some(
            (es.skip(i), p + elements_bytes_from(es, i).len()),
        ),
    decreases es.len() - i,
{
    if i == es.len() {
        assert(es.skip(i) =~= Seq::<RelativePathElementModel>::empty());
    } else {
        let enc = elements_bytes_from(es, i);
        let eb = relative_path_element_bytes(es[i]);
        let tail = elements_bytes_from(es, i + 1);
        assert(enc == eb + tail);
        assert forall|k: int| 0 <= k < enc.len() implies s[p + k] == #[trigger] enc[k] by {
            assert(enc[k] == s.subrange(p, p + enc.len())[k]);
        }
        assert(s.subrange(p, p + eb.len()) =~= eb) by {
            assert forall|k: int| 0 <= k < eb.len() implies s.subrange(p, p + eb.len())[k]
                == #[trigger] eb[k] by {
                assert(enc[k] == eb[k]);
            }
        }
        lemma_parse_element_at(s, p, es[i]);
        let q = p + eb.len();
        assert(s.subrange(q, q + tail.len()) =~= tail) by {
            assert forall|k: int| 0 <= k < tail.len() implies s.subrange(q, q + tail.len())[k]
                == #[trigger] tail[k] by {
                assert(enc[eb.len() + k] == tail[k]);
                assert(s[p + (eb.len() + k)] == enc[eb.len() + k]);
            }
        }
        lemma_parse_elements_at(s, q, es, i + 1);
        assert(seq![es[i]] + es.skip(i + 1) =~= es.skip(i));
    }
}

/// Round trip: an encoded browse path, whatever follows it, parses back to
/// the same value, consuming exactly its bytes.
pub proof fn lemma_browse_path_round_trip(m: BrowsePathModel, rest: Seq<u8>)
    requires
        browse_path_wf(m),
    ensures
        parse_browse_path(browse_path_bytes(m) + rest, 0) == Option::Some(
            (m, browse_path_bytes(m).len() as int),
        ),
{
    let s = browse_path_bytes(m) + rest;
    let enc = browse_path_bytes(m);
    let nb = node_id_bytes(m.starting_node);
    let es = m.relative_path.elements;
    let n = es.len() as u32;
    let elb = elements_bytes_from(es, 0);
    assert forall|i: int| 0 <= i < enc.len() implies s[i] == #[trigger] enc[i] by {}
    assert(s.subrange(0, nb.len() as int) =~= nb) by {
        assert forall|i: int| 0 <= i < nb.len() implies s.subrange(0, nb.len() as int)[i]
            == #[trigger] nb[i] by {
            assert(enc[i] == nb[i]);
        }
    }
    crate::codec::lemma_parse_node_id_at(s, 0, m.starting_node);
    let p1 = nb.len() as int;
    assert(s.subrange(p1, p1 + 4) =~= u32_le_bytes(n)) by {
        assert forall|i: int| 0 <= i < 4 implies s.subrange(p1, p1 + 4)[i] == #[trigger] u32_le_bytes(
            n,
        )[i] by {
            assert(enc[p1 + i] == u32_le_bytes(n)[i]);
            assert(s[p1 + i] == enc[p1 + i]);
        }
    }
    crate::encoding::lemma_parse_u32_at(s, p1, n);
    let p2 = p1 + 4;
    assert(s.subrange(p2, p2 + elb.len()) =~= elb) by {
        assert forall|i: int| 0 <= i < elb.len() implies s.subrange(p2, p2 + elb.len())[i]
            == #[trigger] elb[i] by {
            assert(enc[p2 + i] == elb[i]);
            assert(s[p2 + i] == enc[p2 + i]);
        }
    }
    lemma_parse_elements_at(s, p2, es, 0);
    assert(es.skip(0) =~= es);
    assert(parse_relative_path(s, p1) == Option::Some(
        (m.relative_path, p2 + elb.len()),
    )) by {
        assert(RelativePathModel { elements: es } =~= m.relative_path);
    }
}

/// Parsing `a + b` elements is parsing `a`, then `b` more from where the
/// first run stopped.
pub proof fn lemma_parse_elements_split(s: Seq<u8>, p: int, a: int, b: int)
    requires
        a >= 0,
        b >= 0,
    ensures
        parse_elements(s, p, a + b) == (match parse_elements(s, p, a) {
            Option::None => Option::None::<(Seq<RelativePathElementModel>, int)>,
            Option::Some((es1, q)) => match parse_elements(s, q, b) {
                Option::None => Option::None::<(Seq<RelativePathElementModel>, int)>,
                Option::Some((es2, r2)) => Option::Some((es1 + es2, r2)),
            },
        }),
    decreases a,
{
    if a == 0 {
        match parse_elements(s, p, b) {
            Option::None => {},
            Option::Some((es2, r2)) => {
                assert(Seq::<RelativePathElementModel>::empty() + es2 =~= es2);
            },
        }
    } else {
        match parse_relative_path_element(s, p) {
            Option::None => {},
            Option::Some((e, pe)) => {
                lemma_parse_elements_split(s, pe, a - 1, b);
                match parse_elements(s, pe, a - 1) {
                    Option::None => {},
                    Option::Some((es1p, q)) => {
                        match parse_elements(s, q, b) {
                            Option::None => {},
                            Option::Some((es2, r2)) => {
                                assert((seq![e] + es1p) + es2 =~= seq![e] + (es1p + es2));
                            },
                        }
                    },
                }
            },
        }
    }
}

// ---------------------------------------------------------------------------
// BrowsePath codec
// ---------------------------------------------------------------------------

impl BrowsePath {
    pub fn object_id(&self) -> (r: ObjectId)
        ensures
            r == ObjectId::BrowsePathEncodingDefaultBinary,
    {
        ObjectId::BrowsePathEncodingDefaultBinary
    }

    pub fn byte_len(&self) -> (size: usize)
        requires
            browse_path_wf(self@),
            browse_path_bytes(self@).len() <= usize::MAX,
        ensures
            size == browse_path_bytes(self@).len(),
    {
        node_id_byte_len(&self.starting_node) + self.relative_path.byte_len()
    }

    pub fn encode(&self, stream: &mut Vec<u8>) -> (size: usize)
        requires
            browse_path_wf(self@),
            browse_path_bytes(self@).len() <= usize::MAX,
        ensures
            final(stream)@ == old(stream)@ + browse_path_bytes(self@),
            size == browse_path_bytes(self@).len(),
    {
        let n1 = node_id_byte_len(&self.starting_node);
        write_node_id(stream, &self.starting_node);
        let n2 = self.relative_path.encode(stream);
        proof {
            assert(stream@ =~= old(stream)@ + browse_path_bytes(self@));
        }
        n1 + n2
    }

    pub fn decode(data: &Vec<u8>, pos: &mut usize) -> (r: Result<BrowsePath, StatusCode>)
        ensures
            match parse_browse_path(data@, *old(pos) as int) {
                Option::Some((v, np)) => match r {
                    Result::Ok(b) => b@ == v && *final(pos) as int == np,
                    Result::Err(_) => false,
                },
                Option::None => r is Err,
            },
            r is Err ==> r == Err::<BrowsePath, StatusCode>(StatusCode::BadDecodingError),
    {
        let starting_node = match read_node_id(data, pos) {
            Result::Ok(v) => v,
            Result::Err(e) => {
                return Err(e);
            },
        };
        let relative_path = match RelativePath::decode(data, pos) {
            Result::Ok(v) => v,
            Result::Err(e) => {
                return Err(e);
            },
        };
        Ok(BrowsePath { starting_node, relative_path })
    }
}

} // verus!
