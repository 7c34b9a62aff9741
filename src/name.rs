use vstd::prelude::*;
use vstd::utf8::{decode_utf8, encode_utf8, valid_utf8};

use crate::error::{DnsError, DnsPart};

verus! {

/// A domain name as the codec sees it: the bytes of each label, the offset at which
/// the name was recorded, and the compression pointer it was written with (0 for none).
pub ghost struct NameView {
    pub labels: Seq<Seq<u8>>,
    pub offset: u16,
    pub pointer: u16,
}

/// A domain name: a sequence of labels, or a pointer to a name seen earlier.
#[derive(Debug, Default, Clone)]
pub struct DnsName {
    pub labels: Vec<String>,
    /// The byte offset at which this name was first recorded.
    pub offset: u16,
    /// The 14-bit compression pointer this name is written as; 0 when written in full.
    pub pointer: u16,
}

/// The data of a CNAME record: the canonical name.
#[derive(Debug, Default)]
pub struct DnsRDataCname {
    pub cname: DnsName,
}

/// The UTF-8 bytes of each label.
pub open spec fn label_bytes(labels: Seq<String>) -> Seq<Seq<u8>> {
    labels.map_values(|s: String| encode_utf8(s@))
}

impl View for DnsName {
    type V = NameView;

    open spec fn view(&self) -> NameView {
        NameView { labels: label_bytes(self.labels@), offset: self.offset, pointer: self.pointer }
    }
}

/// The label that wire bytes give: the bytes themselves where they are valid UTF-8,
/// else the empty label.
pub open spec fn label_of(bytes: Seq<u8>) -> Seq<u8> {
    if valid_utf8(bytes) {
        bytes
    } else {
        Seq::empty()
    }
}

/// Reading length-prefixed labels from `pos` up to and including the terminating zero:
/// the labels and the position just past the terminator. `None` where the buffer ends
/// early or a length byte is neither 0 nor in `1..=63`.
pub open spec fn spec_labels_from(data: Seq<u8>, pos: int) -> Option<(Seq<Seq<u8>>, int)>
    decreases data.len() - pos,
{
    if pos < 0 || pos >= data.len() {
        None
    } else if data[pos] == 0 {
        Some((Seq::empty(), pos + 1))
    } else if data[pos] > 63 || pos + 1 + data[pos] > data.len() {
        None
    } else {
        match spec_labels_from(data, pos + 1 + data[pos]) {
            Some((rest, end)) => Some(
                (seq![label_of(data.subrange(pos + 1, pos + 1 + data[pos]))] + rest, end),
            ),
            None => None,
        }
    }
}

/// The labels of `acc` followed by those of a read, with the read's end.
pub open spec fn prepend_labels(acc: Seq<Seq<u8>>, r: Option<(Seq<Seq<u8>>, int)>) -> Option<
    (Seq<Seq<u8>>, int),
> {
    match r {
        Some((ls, end)) => Some((acc + ls, end)),
        None => None,
    }
}

/// The pointer value of the two bytes that start with `hi`, whose top two bits are set.
pub open spec fn pointer_of(hi: u8, lo: u8) -> u16 {
    ((hi - 192) * 256 + lo) as u16
}

/// The bytes of each label, each after its length byte.
pub open spec fn spec_label_run(labels: Seq<Seq<u8>>) -> Seq<u8>
    decreases labels.len(),
{
    if labels.len() == 0 {
        Seq::empty()
    } else {
        seq![labels[0].len() as u8] + labels[0] + spec_label_run(labels.drop_first())
    }
}

/// The bytes taken by the labels and their length bytes.
pub open spec fn spec_labels_size(labels: Seq<Seq<u8>>) -> nat
    decreases labels.len(),
{
    if labels.len() == 0 {
        0
    } else {
        labels[0].len() + 1 + spec_labels_size(labels.drop_first())
    }
}

/// Every label holds from 1 to 63 bytes.
pub open spec fn labels_encodable(labels: Seq<Seq<u8>>) -> bool {
    forall|i: int| 0 <= i < labels.len() ==> 1 <= #[trigger] labels[i].len() <= 63
}

impl NameView {
    /// The bytes the name takes on the wire: 2 for a pointer, else each label with its
    /// length byte and the terminating zero.
    pub open spec fn spec_length(self) -> nat {
        if self.pointer != 0 {
            2
        } else {
            spec_labels_size(self.labels) + 1
        }
    }

    /// The wire bytes of the name; `None` where a pointer exceeds 14 bits or a label is
    /// empty or longer than 63 bytes.
    pub open spec fn spec_encode(self) -> Option<Seq<u8>> {
        if self.pointer != 0 {
            if self.pointer <= 0x3FFF {
                Some(seq![(192 + self.pointer / 256) as u8, (self.pointer % 256) as u8])
            } else {
                None
            }
        } else if labels_encodable(self.labels) {
            Some(spec_label_run(self.labels) + seq![0u8])
        } else {
            None
        }
    }
}

/// The view of an optional name.
pub open spec fn opt_view(n: Option<&DnsName>) -> Option<NameView> {
    match n {
        Some(n) => Some(n@),
        None => None,
    }
}

impl DnsName {
    /// Decoding a name at `offset`: the name and the bytes it took. A pointer resolves only
    /// to `target`, the question's name, and only where its value is the offset recorded
    /// for that name; the pointed-to labels are then copied.
    pub open spec fn spec_decode(data: Seq<u8>, offset: int, target: Option<NameView>) -> Option<
        (NameView, int),
    > {
        if offset < 0 || offset >= data.len() {
            None
        } else if data[offset] >= 192 {
            if offset + 2 > data.len() {
                None
            } else {
                let ptr = pointer_of(data[offset], data[offset + 1]);
                match target {
                    Some(t) => if ptr != 0 && t.offset == ptr {
                        Some((NameView { labels: t.labels, offset: ptr, pointer: ptr }, 2))
                    } else {
                        None
                    },
                    None => None,
                }
            }
        } else {
            match spec_labels_from(data, offset) {
                Some((labels, end)) => Some(
                    (NameView { labels, offset: offset as u16, pointer: 0 }, end - offset),
                ),
                None => None,
            }
        }
    }

    /// The name of the question of a message that starts at the buffer's first byte: the
    /// name written in full at offset 12.
    pub open spec fn spec_question_name(data: Seq<u8>) -> Option<NameView> {
        match Self::spec_decode(data, 12, None) {
            Some((n, _)) => Some(n),
            None => None,
        }
    }

    pub fn count(&self) -> (r: usize)
        ensures
            r == self.labels@.len(),
    {
        self.labels.len()
    }

    /// The bytes the name takes on the wire.
    pub fn length(&self) -> (r: usize)
        requires
            self@.spec_length() <= usize::MAX,
        ensures
            r == self@.spec_length(),
    {
        if self.pointer != 0 {
            return 2;
        }
        let mut length: usize = 0;
        let mut i: usize = 0;
        while i < self.labels.len()
            invariant
                i <= self.labels@.len(),
                self@.pointer == 0,
                length == spec_labels_size(self@.labels.take(i as int)),
                spec_labels_size(self@.labels) + 1 <= usize::MAX,
            decreases self.labels@.len() - i,
        {
            proof {
                lemma_labels_size_push(self@.labels.take(i as int), self@.labels[i as int]);
                assert(self@.labels.take(i as int).push(self@.labels[i as int]) =~= self@.labels.take(
                    i + 1,
                ));
                lemma_labels_size_prefix(self@.labels, i + 1);
            }
            length = length + self.labels[i].as_str().len() + 1;
            i = i + 1;
        }
        assert(self@.labels.take(i as int) =~= self@.labels);
        length + 1
    }

    /// A copy of the name.
    pub fn duplicate(&self) -> (r: DnsName)
        ensures
            r@ == self@,
    {
        let mut labels: Vec<String> = Vec::new();
        let mut i: usize = 0;
        while i < self.labels.len()
            invariant
                i <= self.labels@.len(),
                labels@ =~= self.labels@.take(i as int),
            decreases self.labels@.len() - i,
        {
            labels.push(self.labels[i].clone());
            i = i + 1;
        }
        assert(labels@ =~= self.labels@);
        DnsName { labels, offset: self.offset, pointer: self.pointer }
    }
}

/// Relies on String::from_utf8: it succeeds exactly on valid UTF-8, and the string then
/// holds the characters those bytes encode.
#[verifier::external_body]
fn string_from_utf8(bytes: Vec<u8>) -> (r: Option<String>)
    ensures
        r is Some <==> valid_utf8(bytes@),
        r is Some ==> r->0@ == decode_utf8(bytes@),
{
    String::from_utf8(bytes).ok()
}

/// The label that the wire bytes `data[start..end]` give.
fn read_label(data: &[u8], start: usize, end: usize) -> (r: String)
    requires
        start <= end <= data@.len(),
    ensures
        encode_utf8(r@) == label_of(data@.subrange(start as int, end as int)),
{
    let bytes = crate::wire::copy_range(data, start, end);
    let ghost b = bytes@;
    match string_from_utf8(bytes) {
        Some(s) => {
            proof {
                vstd::utf8::decode_utf8_encode_utf8(b);
            }
            s
        },
        None => {
            let s = String::new();
            assert(encode_utf8(s@) =~= Seq::<u8>::empty());
            s
        },
    }
}

impl DnsName {
    /// Decodes the name at `offset`, resolving a pointer against `target`, the question's
    /// name; returns the name and the bytes it took.
    pub fn decode_at(data: &[u8], offset: usize, target: Option<&DnsName>) -> (r: Result<
        (DnsName, usize),
        DnsError,
    >)
        ensures
            match r {
                Ok((n, used)) => Self::spec_decode(data@, offset as int, opt_view(target)) == Some(
                    (n@, used as int),
                ) && offset + used <= data@.len(),
                Err(e) => Self::spec_decode(data@, offset as int, opt_view(target)) is None && e
                    == (DnsError::FormatError { part: DnsPart::Name, offset }),
            },
    {
        let err = DnsError::FormatError { part: DnsPart::Name, offset };
        if offset >= data.len() {
            return Err(err);
        }
        let first = data[offset];
        if first >= 192 {
            if data.len() - offset < 2 {
                return Err(err);
            }
            let ptr: u16 = ((first - 192) as u16) * 256 + data[offset + 1] as u16;
            return match target {
                Some(t) => {
                    if ptr != 0 && t.offset == ptr {
                        let copy = t.duplicate();
                        Ok((DnsName { labels: copy.labels, offset: ptr, pointer: ptr }, 2))
                    } else {
                        Err(err)
                    }
                },
                None => Err(err),
            };
        }
        let ghost d = data@;
        let mut labels: Vec<String> = Vec::new();
        let mut pos: usize = offset;
        loop
            invariant_except_break
                offset <= pos,
                d == data@,
                offset < d.len(),
                d[offset as int] < 192,
                err == (DnsError::FormatError { part: DnsPart::Name, offset }),
                spec_labels_from(d, offset as int) == prepend_labels(
                    label_bytes(labels@),
                    spec_labels_from(d, pos as int),
                ),
            ensures
                d == data@,
                offset <= pos < d.len(),
                d[pos as int] == 0,
                spec_labels_from(d, offset as int) == Some((label_bytes(labels@), pos + 1)),
            decreases d.len() - pos,
        {
            if pos >= data.len() {
                return Err(err);
            }
            let len = data[pos];
            if len == 0 {
                assert(label_bytes(labels@) + Seq::empty() =~= label_bytes(labels@));
                break;
            }
            if len > 63 || data.len() - (pos + 1) < len as usize {
                return Err(err);
            }
            let end = pos + 1 + len as usize;
            let label = read_label(data, pos + 1, end);
            let ghost before = labels@;
            labels.push(label);
            proof {
                let l = label_of(d.subrange(pos + 1, end as int));
                assert(label_bytes(labels@) =~= label_bytes(before).push(l));
                match spec_labels_from(d, end as int) {
                    Some((rest, e)) => {
                        assert(label_bytes(before) + (seq![l] + rest) =~= label_bytes(labels@)
                            + rest);
                    },
                    None => {},
                }
            }
            pos = end;
        }
        Ok((DnsName { labels, offset: #[verifier::truncate] (offset as u16), pointer: 0 }, pos + 1 - offset))
    }

    /// Decodes the name at `offset` of a message that starts at the buffer's first byte;
    /// a pointer resolves against the question's name at offset 12.
    pub fn from_bytes(data: &[u8], offset: usize) -> (r: Result<DnsName, DnsError>)
        ensures
            match r {
                Ok(n) => Self::spec_decode(data@, offset as int, Self::spec_question_name(data@))
                    matches Some((m, _)) && m == n@,
                Err(e) => Self::spec_decode(
                    data@,
                    offset as int,
                    Self::spec_question_name(data@),
                ) is None && e == (DnsError::FormatError { part: DnsPart::Name, offset }),
            },
    {
        if offset < data.len() && data[offset] >= 192 {
            match Self::decode_at(data, 12, None) {
                Ok((question, _)) => match Self::decode_at(data, offset, Some(&question)) {
                    Ok((n, used)) => {
                        assert(Self::spec_decode(data@, offset as int, Self::spec_question_name(data@))
                            == Some((n@, used as int)));
                        Ok(n)
                    },
                    Err(e) => Err(e),
                },
                Err(_) => Err(DnsError::FormatError { part: DnsPart::Name, offset }),
            }
        } else {
            match Self::decode_at(data, offset, None) {
                Ok((n, used)) => {
                    assert(Self::spec_decode(data@, offset as int, Self::spec_question_name(data@))
                        == Some((n@, used as int)));
                    Ok(n)
                },
                Err(e) => Err(e),
            }
        }
    }

    /// Writes the name: a two-byte pointer where one is set, else each label after its
    /// length byte and then a zero byte.
    pub fn to_bytes(&self) -> (r: Result<Vec<u8>, DnsError>)
        ensures
            match r {
                Ok(v) => self@.spec_encode() == Some(v@),
                Err(e) => self@.spec_encode() is None && e
                    == (DnsError::SerializationError { part: DnsPart::Name }),
            },
    {
        let err = DnsError::SerializationError { part: DnsPart::Name };
        let mut data: Vec<u8> = Vec::new();
        if self.pointer != 0 {
            if self.pointer > 0x3FFF {
                return Err(err);
            }
            data.push((192 + self.pointer / 256) as u8);
            data.push((self.pointer % 256) as u8);
            assert(data@ =~= self@.spec_encode()->0);
            return Ok(data);
        }
        let ghost ls = self@.labels;
        let mut i: usize = 0;
        while i < self.labels.len()
            invariant
                i <= self.labels@.len(),
                self.pointer == 0,
                err == (DnsError::SerializationError { part: DnsPart::Name }),
                ls == label_bytes(self.labels@),
                labels_encodable(ls.take(i as int)),
                data@ == spec_label_run(ls.take(i as int)),
            decreases self.labels@.len() - i,
        {
            let bytes = self.labels[i].as_str().as_bytes();
            let len = bytes.len();
            assert(ls[i as int] == bytes@);
            if len == 0 || len > 63 {
                assert(!labels_encodable(ls));
                return Err(err);
            }
            proof {
                lemma_label_run_push(ls.take(i as int), ls[i as int]);
                assert(ls.take(i as int).push(ls[i as int]) =~= ls.take(i + 1));
            }
            data.push(len as u8);
            crate::wire::push_all(&mut data, bytes);
            i = i + 1;
            assert(data@ =~= spec_label_run(ls.take(i as int)));
        }
        assert(ls.take(i as int) =~= ls);
        data.push(0);
        Ok(data)
    }
}

/// Appending a label adds its length byte and its bytes to the run.
proof fn lemma_label_run_push(labels: Seq<Seq<u8>>, l: Seq<u8>)
    ensures
        spec_label_run(labels.push(l)) == spec_label_run(labels) + seq![l.len() as u8] + l,
    decreases labels.len(),
{
    if labels.len() > 0 {
        assert(labels.push(l).drop_first() =~= labels.drop_first().push(l));
        assert(labels.push(l)[0] == labels[0]);
        lemma_label_run_push(labels.drop_first(), l);
        assert(spec_label_run(labels.push(l)) =~= spec_label_run(labels) + seq![l.len() as u8]
            + l);
    } else {
        assert(labels.push(l).drop_first() =~= Seq::<Seq<u8>>::empty());
        assert(labels.push(l)[0] == l);
        assert(spec_label_run(labels.push(l).drop_first()) =~= Seq::<u8>::empty());
        assert(spec_label_run(labels.push(l)) =~= spec_label_run(labels) + seq![l.len() as u8]
            + l);
    }
}

/// Appending a label adds its bytes and its length byte to the size.
proof fn lemma_labels_size_push(labels: Seq<Seq<u8>>, l: Seq<u8>)
    ensures
        spec_labels_size(labels.push(l)) == spec_labels_size(labels) + l.len() + 1,
    decreases labels.len(),
{
    if labels.len() > 0 {
        assert(labels.push(l).drop_first() =~= labels.drop_first().push(l));
        assert(labels.push(l)[0] == labels[0]);
        lemma_labels_size_push(labels.drop_first(), l);
    } else {
        assert(labels.push(l).drop_first() =~= Seq::<Seq<u8>>::empty());
        assert(labels.push(l)[0] == l);
        assert(spec_labels_size(labels.push(l).drop_first()) == 0);
    }
}

/// The size of a prefix is at most the size of the whole.
proof fn lemma_labels_size_prefix(labels: Seq<Seq<u8>>, i: int)
    requires
        0 <= i <= labels.len(),
    ensures
        spec_labels_size(labels.take(i)) <= spec_labels_size(labels),
    decreases labels.len(),
{
    if i > 0 {
        assert(labels.take(i).drop_first() =~= labels.drop_first().take(i - 1));
        assert(labels.take(i)[0] == labels[0]);
        lemma_labels_size_prefix(labels.drop_first(), i - 1);
    }
}

/// Every label can be written and is valid UTF-8.
pub open spec fn labels_valid(labels: Seq<Seq<u8>>) -> bool {
    &&& labels_encodable(labels)
    &&& forall|i: int| 0 <= i < labels.len() ==> valid_utf8(#[trigger] labels[i])
}

impl NameView {
    /// The name reads back as itself when written at `pos` of a message whose question's
    /// name is `target`: in full, recorded at `pos`; or as a pointer to `target`, with
    /// its labels, recorded where `target` was.
    pub open spec fn fits_at(self, pos: int, target: Option<NameView>) -> bool {
        if self.pointer == 0 {
            labels_valid(self.labels) && self.offset == pos as u16
        } else {
            &&& self.pointer <= 0x3FFF
            &&& target matches Some(t)
            &&& t.offset == self.pointer
            &&& t.labels == self.labels
            &&& self.offset == self.pointer
        }
    }
}

/// The labels of a name read back from their wire bytes, whatever precedes and follows.
proof fn lemma_labels_read_back(pre: Seq<u8>, labels: Seq<Seq<u8>>, post: Seq<u8>)
    requires
        labels_valid(labels),
    ensures
        spec_labels_from(pre + spec_label_run(labels) + seq![0u8] + post, pre.len() as int) == Some(
            (labels, pre.len() + spec_label_run(labels).len() + 1int),
        ),
        spec_label_run(labels).len() == spec_labels_size(labels),
    decreases labels.len(),
{
    let data = pre + spec_label_run(labels) + seq![0u8] + post;
    if labels.len() == 0 {
        assert(spec_label_run(labels) =~= Seq::<u8>::empty());
        assert(data[pre.len() as int] == 0);
    } else {
        let l = labels[0];
        let rest = labels.drop_first();
        let pre2 = pre + seq![l.len() as u8] + l;
        assert forall|i: int| 0 <= i < rest.len() implies 1 <= #[trigger] rest[i].len() <= 63
            && valid_utf8(rest[i]) by {
            assert(rest[i] == labels[i + 1]);
        }
        assert(1 <= labels[0].len() <= 63 && valid_utf8(labels[0]));
        lemma_labels_read_back(pre2, rest, post);
        assert(data =~= pre2 + spec_label_run(rest) + seq![0u8] + post);
        assert(data[pre.len() as int] == l.len() as u8);
        assert(data.subrange(pre.len() + 1int, pre.len() + 1int + l.len()) =~= l);
        assert(seq![label_of(l)] + rest =~= labels);
    }
}

/// A name that fits where it is written reads back as itself from its wire bytes, whatever
/// precedes and follows, and takes as many bytes as its length says.
pub proof fn lemma_name_read_back(
    pre: Seq<u8>,
    n: NameView,
    post: Seq<u8>,
    target: Option<NameView>,
)
    requires
        n.fits_at(pre.len() as int, target),
    ensures
        n.spec_encode() is Some,
        n.spec_encode()->0.len() == n.spec_length(),
        DnsName::spec_decode(pre + n.spec_encode()->0 + post, pre.len() as int, target) == Some(
            (n, n.spec_encode()->0.len() as int),
        ),
{
    let enc = n.spec_encode()->0;
    let data = pre + enc + post;
    if n.pointer == 0 {
        lemma_labels_read_back(pre, n.labels, post);
        assert(data =~= pre + spec_label_run(n.labels) + seq![0u8] + post);
        if n.labels.len() > 0 {
            assert(1 <= n.labels[0].len() <= 63);
            assert(data[pre.len() as int] == n.labels[0].len() as u8);
        } else {
            assert(spec_label_run(n.labels) =~= Seq::<u8>::empty());
            assert(data[pre.len() as int] == 0);
        }
    } else {
        assert(data[pre.len() as int] == enc[0]);
        assert(data[pre.len() + 1int] == enc[1]);
        assert(pointer_of(enc[0], enc[1]) == n.pointer);
    }
}

/// A pointer resolves against the question's name exactly when its value is the offset
/// recorded for that name: it then gives that name's labels and takes two bytes, and any
/// other value is a format error.
pub proof fn lemma_pointer_resolution(data: Seq<u8>, offset: int, question: NameView)
    requires
        0 <= offset,
        offset + 2 <= data.len(),
        data[offset] >= 0xC0,
    ensures
        ({
            let p = pointer_of(data[offset], data[offset + 1]);
            &&& p != 0 && p == question.offset ==> DnsName::spec_decode(
                data,
                offset,
                Some(question),
            ) == Some((NameView { labels: question.labels, offset: p, pointer: p }, 2int))
            &&& p != question.offset ==> DnsName::spec_decode(data, offset, Some(question)) is None
        }),
{
}

/// A length byte with both top bits set always starts a two-byte pointer, never a label;
/// one with exactly one of them set is a format error.
pub proof fn lemma_pointer_boundary(data: Seq<u8>, offset: int, target: Option<NameView>)
    requires
        0 <= offset < data.len(),
    ensures
        data[offset] >= 0xC0 ==> (DnsName::spec_decode(data, offset, target) matches Some(
            (n, used),
        ) ==> used == 2 && n.pointer != 0 && n.pointer == pointer_of(
            data[offset],
            data[offset + 1],
        )),
        64 <= data[offset] < 0xC0 ==> DnsName::spec_decode(data, offset, target) is None,
{
}

} // verus!
