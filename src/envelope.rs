//! Boundary detection inside a composite print payload: a control-language
//! header, one embedded document, and an optional control-language footer.
use vstd::prelude::*;
use vstd::slice::slice_subrange;
use vstd::slice::slice_to_vec;

verus! {

/// The bytes that open an embedded document (`%PDF`).
pub open spec fn document_magic() -> Seq<u8> {
    seq![0x25u8, 0x50u8, 0x44u8, 0x46u8]
}

/// The control-language terminator (`ESC %-12345X`) that opens the footer.
pub open spec fn footer_terminator() -> Seq<u8> {
    seq![0x1bu8, 0x25u8, 0x2du8, 0x31u8, 0x32u8, 0x33u8, 0x34u8, 0x35u8, 0x58u8]
}

/// `needle` occurs in `hay` starting at index `i`.
pub open spec fn occurs_at(hay: Seq<u8>, needle: Seq<u8>, i: int) -> bool {
    0 <= i && i + needle.len() <= hay.len() && hay.subrange(i, i + needle.len()) == needle
}

/// `i` is the first index at which `needle` occurs in `hay`.
pub open spec fn first_occurrence(hay: Seq<u8>, needle: Seq<u8>, i: int) -> bool {
    occurs_at(hay, needle, i) && forall|j: int| 0 <= j < i ==> !occurs_at(hay, needle, j)
}

/// `needle` does not occur anywhere in `hay`.
pub open spec fn absent(hay: Seq<u8>, needle: Seq<u8>) -> bool {
    forall|j: int| !occurs_at(hay, needle, j)
}

/// `needle` occurs somewhere in `hay`.
pub open spec fn contains(hay: Seq<u8>, needle: Seq<u8>) -> bool {
    exists|j: int| occurs_at(hay, needle, j)
}

/// A composite payload cut at its two boundaries.
pub struct DocumentEnvelope {
    pub prefix: Vec<u8>,
    pub document: Vec<u8>,
    pub suffix: Vec<u8>,
}

#[derive(Debug, PartialEq, Eq, Structural)]
pub enum EnvelopeError {
    /// The payload holds no embedded document magic marker.
    BoundaryNotFound,
}

/// What boundary detection makes of a payload: the prefix ends where the
/// magic marker first occurs; the suffix starts at the first terminator after
/// it, or is empty when there is none.
pub open spec fn is_envelope_of(p: Seq<u8>, prefix: Seq<u8>, document: Seq<u8>, suffix: Seq<u8>) -> bool {
    &&& first_occurrence(p, document_magic(), prefix.len() as int)
    &&& prefix == p.subrange(0, prefix.len() as int)
    &&& ({
        let rest = p.subrange(prefix.len() as int, p.len() as int);
        &&& document.len() <= rest.len()
        &&& document == rest.subrange(0, document.len() as int)
        &&& suffix == rest.subrange(document.len() as int, rest.len() as int)
        &&& if suffix.len() == 0 {
            absent(rest, footer_terminator())
        } else {
            first_occurrence(rest, footer_terminator(), document.len() as int)
        }
    })
}

/// Whether `needle` occurs in `hay` at index `i`.
fn matches_at(hay: &[u8], needle: &[u8], i: usize) -> (r: bool)
    ensures
        r == occurs_at(hay@, needle@, i as int),
{
    if i > hay.len() || needle.len() > hay.len() - i {
        return false;
    }
    let n: usize = hay.len();
    let mut k: usize = 0;
    while k < needle.len()
        invariant
            n == hay@.len(),
            i + needle@.len() <= hay@.len(),
            k <= needle@.len(),
            forall|t: int| 0 <= t < k ==> hay@[i + t] == needle@[t],
        decreases needle@.len() - k,
    {
        if hay[i + k] != needle[k] {
            assert(hay@.subrange(i as int, i + needle@.len())[k as int] != needle@[k as int]);
            return false;
        }
        k = k + 1;
    }
    assert(hay@.subrange(i as int, i + needle@.len()) =~= needle@);
    true
}

/// The first index at which `needle` occurs in `hay`, if any.
pub fn find_first(hay: &[u8], needle: &[u8]) -> (r: Option<usize>)
    ensures
        match r {
            Some(i) => first_occurrence(hay@, needle@, i as int),
            None => absent(hay@, needle@),
        },
{
    let mut i: usize = 0;
    while i < hay.len()
        invariant
            i <= hay@.len(),
            forall|j: int| 0 <= j < i ==> !occurs_at(hay@, needle@, j),
        decreases hay@.len() - i,
    {
        if matches_at(hay, needle, i) {
            return Some(i);
        }
        i = i + 1;
    }
    if matches_at(hay, needle, i) {
        return Some(i);
    }
    None
}

/// Cuts a composite payload into prefix, embedded document and suffix.
pub fn split_payload(payload: &[u8]) -> (r: Result<DocumentEnvelope, EnvelopeError>)
    ensures
        match r {
            Ok(e) => is_envelope_of(payload@, e.prefix@, e.document@, e.suffix@),
            Err(err) => err == EnvelopeError::BoundaryNotFound && absent(payload@, document_magic()),
        },
{
    let magic: [u8; 4] = [0x25, 0x50, 0x44, 0x46];
    let terminator: [u8; 9] = [0x1b, 0x25, 0x2d, 0x31, 0x32, 0x33, 0x34, 0x35, 0x58];
    assert(magic@ =~= document_magic());
    assert(terminator@ =~= footer_terminator());
    let start = match find_first(payload, magic.as_slice()) {
        Some(i) => i,
        None => {
            return Err(EnvelopeError::BoundaryNotFound);
        },
    };
    let rest = slice_subrange(payload, start, payload.len());
    let end = match find_first(rest, terminator.as_slice()) {
        Some(j) => j,
        None => rest.len(),
    };
    let prefix = slice_to_vec(slice_subrange(payload, 0, start));
    let document = slice_to_vec(slice_subrange(rest, 0, end));
    let suffix = slice_to_vec(slice_subrange(rest, end, rest.len()));
    proof {
        if suffix@.len() != 0 {
            assert(end < rest@.len());
        }
        assert(rest@ =~= payload@.subrange(prefix@.len() as int, payload@.len() as int));
    }
    Ok(DocumentEnvelope { prefix, document, suffix })
}

/// Joins prefix, document and suffix back into one payload.
pub fn assemble(prefix: &[u8], document: &[u8], suffix: &[u8]) -> (r: Vec<u8>)
    ensures
        r@ == prefix@ + document@ + suffix@,
{
    let mut out = slice_to_vec(prefix);
    let mut i: usize = 0;
    while i < document.len()
        invariant
            i <= document@.len(),
            out@ == prefix@ + document@.subrange(0, i as int),
        decreases document@.len() - i,
    {
        out.push(document[i]);
        i = i + 1;
        assert(out@ =~= prefix@ + document@.subrange(0, i as int));
    }
    assert(document@.subrange(0, document@.len() as int) =~= document@);
    let mut j: usize = 0;
    while j < suffix.len()
        invariant
            j <= suffix@.len(),
            out@ == prefix@ + document@ + suffix@.subrange(0, j as int),
        decreases suffix@.len() - j,
    {
        out.push(suffix[j]);
        j = j + 1;
        assert(out@ =~= prefix@ + document@ + suffix@.subrange(0, j as int));
    }
    assert(suffix@.subrange(0, suffix@.len() as int) =~= suffix@);
    out
}

proof fn lemma_parts_reassemble(p: Seq<u8>, prefix: Seq<u8>, document: Seq<u8>, suffix: Seq<u8>)
    requires
        is_envelope_of(p, prefix, document, suffix),
    ensures
        prefix + document + suffix == p,
{
    let rest = p.subrange(prefix.len() as int, p.len() as int);
    assert(document + suffix =~= rest);
    assert(prefix + rest =~= p);
    assert(prefix + document + suffix =~= prefix + (document + suffix));
}

/// Cutting a payload that holds the magic marker (which `split_payload`
/// then does) and putting the three parts back together, in order, gives
/// the payload byte for byte.
pub proof fn lemma_envelope_reassembles(p: Seq<u8>)
    requires
        contains(p, document_magic()),
    ensures
        forall|prefix: Seq<u8>, document: Seq<u8>, suffix: Seq<u8>|
            #[trigger] is_envelope_of(p, prefix, document, suffix) ==> prefix + document + suffix == p,
{
    assert forall|prefix: Seq<u8>, document: Seq<u8>, suffix: Seq<u8>|
        #[trigger] is_envelope_of(p, prefix, document, suffix) implies prefix + document + suffix == p by {
        lemma_parts_reassemble(p, prefix, document, suffix);
    }
}

} // verus!
