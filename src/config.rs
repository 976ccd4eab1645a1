//! The schema model: a typed, read-only description of a device interface.
//!
//! Name-keyed tables of the document are held as vectors of `(key, value)`
//! pairs. A lookup takes the first entry with the key, and generated code
//! follows the order of the entries as given.

use vstd::prelude::*;
use crate::text::{escaped, push_escaped, signed_decimal, signed_decimal_string};

verus! {

/// A literal used to initialise metadata: a string or an integer.
#[derive(Debug, Clone)]
pub enum LiteralValue {
    String(String),
    Int(i64),
}

/// A value given either once or as an ordered list.
#[derive(Debug, Clone)]
pub enum OneOrMany<T> where T: Clone {
    One(T),
    Many(Vec<T>),
}

/// Whether a size field is expressed in bits or in bytes.
#[derive(Debug, Clone, Copy, PartialEq, Eq, Structural)]
pub enum BitsOrBytes {
    Bits,
    Bytes,
}

/// A named group of segments that payloads and other structs can refer to.
#[derive(Debug)]
pub struct ReusableStruct {
    /// Name of this struct, used in generated code.
    pub name: String,
    pub fields: Vec<PacketSegment>,
    pub description: Option<String>,
}

/// Byte order of a multi-byte value.
#[derive(Debug, Clone, Copy, PartialEq, Eq, Structural)]
pub enum Endianness {
    /// Most significant byte first.
    BigEndian,
    /// Least significant byte first.
    LittleEndian,
}

/// How negative integers are represented.
#[derive(Debug, Clone, Copy, PartialEq, Eq, Structural)]
pub enum Signing {
    OnesComplement,
    TwosComplement,
    Unsigned,
}

/// How a reader knows where variable-length data ends.
#[derive(Debug, Clone)]
pub enum Terminator {
    /// Reads/writes exactly this many elements.
    CountFixed { count: u32 },
    /// The count is held in the sibling segment with this name.
    CountInPacket { field_name: String },
    /// The data ends with this byte pattern, which is written after it.
    Sequence { sequence: Vec<u8> },
}

/// Interpretation of a segment whose width is fixed in bits.
#[derive(Debug, Clone)]
pub enum SizedDataType {
    Integer { endianness: Endianness, signing: Signing },
    FloatIEEE { endianness: Endianness },
    Raw,
    StringUTF8,
    /// Hardcoded bytes.
    Const { data: Vec<u8> },
}

/// Interpretation of a segment of variable length.
#[derive(Debug, Clone)]
pub enum UnsizedDataType {
    /// Repetitions of the struct with this name.
    Array { item_struct: String },
    /// A null-terminated UTF-8 string.
    StringUTF8,
    Raw,
}

/// CRC algorithms a packet format can name.
#[derive(Debug, Clone, Copy, PartialEq, Eq, Structural)]
pub enum Crc {
    Crc32,
    Crc16XModem,
}

/// One element of the envelope around a payload.
#[derive(Debug)]
pub enum PacketFormatElement {
    /// Total size of the packet.
    SizeTotal { size_bits: u32, express_as: BitsOrBytes },
    /// Size of the payload only.
    SizeOfPayload { size_bits: u32, express_as: BitsOrBytes },
    /// Size of the listed elements.
    SizeOfElements { size_bits: u32, express_as: BitsOrBytes, elements: Vec<PacketFormatElement> },
    /// Where the payload's own segments go.
    Payload,
    /// A segment whose value is the payload's declared metadata literal.
    Metadata { segment: PacketSegment, description: Option<String> },
    /// A checksum.
    Crc { algorithm: Crc },
    /// Fixed bytes present in every packet.
    Const { data: Vec<u8>, bits: Option<usize>, description: Option<String> },
}

/// Header/footer layout for UART packets, for each direction.
#[derive(Debug)]
pub struct UARTConfig {
    pub tx_format: Vec<PacketFormatElement>,
    pub rx_format: Vec<PacketFormatElement>,
}

/// One named field of a payload or struct.
#[derive(Debug, Clone)]
pub enum PacketSegment {
    Sized { name: String, bits: u32, datatype: SizedDataType, description: Option<String> },
    Unsized {
        name: String,
        datatype: UnsizedDataType,
        /// `None` means the segment can only be transmitted.
        termination: Option<Terminator>,
        description: Option<String>,
    },
    Struct { name: String, struct_name: String },
}

/// The name of a segment.
pub open spec fn segment_name(s: PacketSegment) -> Seq<char> {
    match s {
        PacketSegment::Sized { name, .. } => name@,
        PacketSegment::Unsized { name, .. } => name@,
        PacketSegment::Struct { name, .. } => name@,
    }
}

impl PacketSegment {
    pub fn get_name(&self) -> (r: &str)
        ensures
            r@ == segment_name(*self),
    {
        match self {
            PacketSegment::Sized { name, .. } => name.as_str(),
            PacketSegment::Unsized { name, .. } => name.as_str(),
            PacketSegment::Struct { name, .. } => name.as_str(),
        }
    }
}

/// The data region of a packet.
#[derive(Debug)]
pub struct Payload {
    /// Data inside this packet, in order.
    pub segments: Vec<PacketSegment>,
    /// Literal values for the format's metadata segments, by segment name.
    pub metadata: Vec<(String, OneOrMany<LiteralValue>)>,
    pub description: String,
}

/// Payloads by direction, each table keyed by payload name.
#[derive(Debug)]
pub struct AllPayloads {
    pub tx: Vec<(String, Payload)>,
    pub rx: Vec<(String, Payload)>,
}

/// One step of a transaction.
#[derive(Debug)]
pub enum Action {
    Tx { payload: String },
    Rx { payload: String },
    Sleep { milliseconds: u32 },
    Flush,
}

/// An ordered sequence of actions.
#[derive(Debug)]
pub struct Transaction {
    pub actions: Vec<Action>,
    /// Field references of the form `<payload>.<field>`.
    pub returns: Vec<String>,
    pub description: String,
}

#[derive(Debug)]
pub struct DeviceInfo {
    pub name: String,
    pub description: String,
}

#[derive(Debug)]
pub struct SPIConfig {}

#[derive(Debug)]
pub struct I2CConfig {}

/// A device interface document.
#[derive(Debug)]
pub struct OpenPID {
    pub device_info: DeviceInfo,
    pub openpid_version: Option<String>,
    pub doc_version: Option<String>,
    pub uart: Option<UARTConfig>,
    pub spi: Option<SPIConfig>,
    pub i2c: Option<I2CConfig>,
    /// Reusable structs, keyed by name.
    pub structs: Vec<(String, ReusableStruct)>,
    pub payloads: AllPayloads,
    /// Transactions, keyed by name.
    pub transactions: Vec<(String, Transaction)>,
}

/// The index of the first entry at or after `i` whose key is `key`.
pub open spec fn find_from<T>(entries: Seq<(String, T)>, key: Seq<char>, i: int) -> Option<int>
    decreases entries.len() - i,
{
    if i < 0 || i >= entries.len() {
        None
    } else if entries[i].0@ == key {
        Some(i)
    } else {
        find_from(entries, key, i + 1)
    }
}

/// The index of the entry whose key is `key`, if any.
pub open spec fn find_key<T>(entries: Seq<(String, T)>, key: Seq<char>) -> Option<int> {
    find_from(entries, key, 0)
}

pub proof fn lemma_find_from_bounds<T>(entries: Seq<(String, T)>, key: Seq<char>, i: int)
    requires
        0 <= i,
    ensures
        find_from(entries, key, i) matches Some(j) ==> i <= j < entries.len() && entries[j].0@ == key,
        find_from(entries, key, i) is None ==> forall|j: int| i <= j < entries.len() ==> #[trigger] entries[j].0@ != key,
    decreases entries.len() - i,
{
    if i < entries.len() && entries[i].0@ != key {
        lemma_find_from_bounds(entries, key, i + 1);
    }
}

/// Looks `key` up in a table.
pub fn lookup<T>(entries: &Vec<(String, T)>, key: &String) -> (r: Option<usize>)
    ensures
        r matches Some(j) ==> find_key(entries@, key@) == Some(j as int) && j < entries@.len(),
        r is None ==> find_key(entries@, key@) is None,
{
    let mut i: usize = 0;
    while i < entries.len()
        invariant
            0 <= i <= entries@.len(),
            find_key(entries@, key@) == find_from(entries@, key@, i as int),
        decreases entries@.len() - i,
    {
        if entries[i].0.eq(key) {
            return Some(i);
        }
        i = i + 1;
    }
    None
}

/// The literals of a one-or-many value, in order.
pub open spec fn many_of<T: Clone>(v: OneOrMany<T>) -> Seq<T> {
    match v {
        OneOrMany::One(x) => seq![x],
        OneOrMany::Many(xs) => xs@,
    }
}

impl<T> OneOrMany<T> where T: Clone {
    pub fn as_many(self) -> (r: Vec<T>)
        ensures
            r@ == many_of(self),
    {
        match self {
            OneOrMany::One(one) => {
                let mut v = Vec::new();
                v.push(one);
                assert(v@ =~= seq![one]);
                v
            },
            OneOrMany::Many(vec) => vec,
        }
    }

    pub fn as_many_ref(&self) -> (r: Vec<&T>)
        ensures
            r@.len() == many_of(*self).len(),
            forall|i: int| 0 <= i < r@.len() ==> *r@[i] == many_of(*self)[i],
    {
        match self {
            OneOrMany::One(one) => {
                let mut v: Vec<&T> = Vec::new();
                v.push(one);
                v
            },
            OneOrMany::Many(vec) => {
                let mut v: Vec<&T> = Vec::new();
                let mut i: usize = 0;
                while i < vec.len()
                    invariant
                        0 <= i <= vec@.len(),
                        v@.len() == i,
                        forall|k: int| 0 <= k < i ==> *v@[k] == vec@[k],
                    decreases vec@.len() - i,
                {
                    v.push(&vec[i]);
                    i = i + 1;
                }
                v
            },
        }
    }
}

/// A literal as it stands in generated C: an integer in decimal, a string in
/// double quotes with its quotes, backslashes and newlines escaped. Distinct
/// literals give distinct text.
pub open spec fn literal_text(l: LiteralValue) -> Seq<char> {
    match l {
        LiteralValue::Int(i) => signed_decimal(i as int),
        LiteralValue::String(s) => "\""@ + escaped(s@) + "\""@,
    }
}

impl LiteralValue {
    /// The literal as unambiguous C text.
    pub fn to_string(&self) -> (r: String)
        ensures
            r@ == literal_text(*self),
    {
        match self {
            LiteralValue::Int(i) => signed_decimal_string(*i),
            LiteralValue::String(s) => {
                let mut r = String::from_str("\"");
                push_escaped(&mut r, s.as_str());
                r.append("\"");
                r
            },
        }
    }
}

/// Total width in bits of the first `i` segments, when all of them are sized.
pub open spec fn sized_bits_upto(segs: Seq<PacketSegment>, i: nat) -> Option<nat>
    decreases i,
{
    if i == 0 {
        Some(0)
    } else {
        match sized_bits_upto(segs, (i - 1) as nat) {
            None => None,
            Some(n) => match segs[i - 1] {
                PacketSegment::Sized { bits, .. } => Some(n + bits as nat),
                _ => None,
            },
        }
    }
}

/// Total width in bits of a segment list made of sized segments only.
pub open spec fn sized_bits(segs: Seq<PacketSegment>) -> Option<nat> {
    sized_bits_upto(segs, segs.len())
}

proof fn lemma_sized_bits_none_kept(segs: Seq<PacketSegment>, i: nat, n: nat)
    requires
        i <= n,
        sized_bits_upto(segs, i) is None,
    ensures
        sized_bits_upto(segs, n) is None,
    decreases n,
{
    if i < n {
        lemma_sized_bits_none_kept(segs, i, (n - 1) as nat);
    }
}

proof fn lemma_sized_bits_grows(segs: Seq<PacketSegment>, i: nat, n: nat)
    requires
        i <= n,
        sized_bits_upto(segs, n) is Some,
    ensures
        sized_bits_upto(segs, i) is Some,
        sized_bits_upto(segs, i)->Some_0 <= sized_bits_upto(segs, n)->Some_0,
    decreases n,
{
    if i < n {
        lemma_sized_bits_grows(segs, i, (n - 1) as nat);
    }
}

/// The field of a packet diagram for a segment: its name, and its width when it is sized.
pub open spec fn diagram_field(seg: PacketSegment) -> (Seq<char>, Option<u32>) {
    match seg {
        PacketSegment::Sized { bits, .. } => (segment_name(seg), Some(bits)),
        _ => (segment_name(seg), None),
    }
}

impl Payload {
    /// The payload's size in bits, not counting headers and footers: known
    /// when every segment is sized and the total fits in a `u32`.
    pub fn get_size(&self) -> (r: Option<u32>)
        ensures
            match sized_bits(self.segments@) {
                Some(n) => if n <= u32::MAX { r == Some(n as u32) } else { r is None },
                None => r is None,
            },
    {
        let mut total: u64 = 0;
        let mut i: usize = 0;
        while i < self.segments.len()
            invariant
                0 <= i <= self.segments@.len(),
                sized_bits_upto(self.segments@, i as nat) == Some(total as nat),
                total <= u32::MAX,
            decreases self.segments@.len() - i,
        {
            match &self.segments[i] {
                PacketSegment::Sized { bits, .. } => {
                    total = total + *bits as u64;
                    if total > u32::MAX as u64 {
                        proof {
                            let segs = self.segments@;
                            if sized_bits(segs) is Some {
                                lemma_sized_bits_grows(segs, (i + 1) as nat, segs.len());
                            }
                        }
                        return None;
                    }
                },
                _ => {
                    proof { lemma_sized_bits_none_kept(self.segments@, (i + 1) as nat, self.segments@.len()); }
                    return None;
                },
            }
            i = i + 1;
        }
        Some(total as u32)
    }

    /// The fields of this payload's packet diagram, in segment order: each
    /// segment's name, with its width in bits when it is sized.
    pub fn diagram_fields(&self) -> (r: Vec<(String, Option<u32>)>)
        ensures
            r@.len() == self.segments@.len(),
            forall|i: int|
                0 <= i < r@.len() ==> (#[trigger] r@[i]).0@ == diagram_field(self.segments@[i]).0 && r@[i].1
                    == diagram_field(self.segments@[i]).1,
    {
        let mut r: Vec<(String, Option<u32>)> = Vec::new();
        let mut i: usize = 0;
        while i < self.segments.len()
            invariant
                0 <= i <= self.segments@.len(),
                r@.len() == i,
                forall|k: int|
                    0 <= k < i ==> (#[trigger] r@[k]).0@ == diagram_field(self.segments@[k]).0 && r@[k].1
                        == diagram_field(self.segments@[k]).1,
            decreases self.segments@.len() - i,
        {
            let seg = &self.segments[i];
            let size = match seg {
                PacketSegment::Sized { bits, .. } => Some(*bits),
                _ => None,
            };
            r.push((String::from_str(seg.get_name()), size));
            i = i + 1;
        }
        r
    }
}

} // verus!
