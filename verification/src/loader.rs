//! The binary-image loader: a 12-byte header of three big-endian section
//! offsets, a symbol-table section of length-prefixed names with code
//! offsets, a raw data section and a raw code section, parsed into an
//! immutable `LoadedProgram`.

use vstd::prelude::*;
use vstd::slice::{slice_subrange, slice_to_vec};
use crate::bits::{interpret_big_endian_word, spec_word};

verus! {

/// Load-time failure kinds; each one is fatal before execution begins.
#[derive(Clone, Copy, Debug, PartialEq, Eq, Structural)]
pub enum LoaderError {
    /// The buffer is shorter than the 12-byte header, or the header's
    /// offsets are not ascending from the end of the header.
    InvalidHeader,
    /// A symbol entry is truncated or names an offset outside the code
    /// section.
    InvalidSymbolTable,
    /// The code section would start past the end of the buffer.
    TruncatedSection,
}

/// The fixed 12-byte header: three consecutive big-endian offsets.
#[derive(Clone, Copy, Debug, PartialEq, Eq, Structural)]
pub struct BinaryHeader {
    /// Byte offset of the symbol-table section.
    pub symbol_table_location: i32,
    /// Byte offset of the data section.
    pub data_section_location: i32,
    /// Byte offset of the code section.
    pub code_section_location: i32,
}

/// One symbol: a name and an absolute offset into the code section.
#[derive(Clone, Debug, PartialEq, Eq)]
pub struct SymbolEntry {
    /// The symbol's name bytes.
    pub name: Vec<u8>,
    /// The named offset; always within the code section's bounds.
    pub offset: i32,
}

/// The immutable result of loading a binary image.
#[derive(Clone, Debug, PartialEq, Eq)]
pub struct LoadedProgram {
    /// The symbol table, in the order the image serialises it.
    pub symbol_table: Vec<SymbolEntry>,
    /// The code section's raw bytes.
    pub code: Vec<u8>,
    /// The data section's raw bytes.
    pub data: Vec<u8>,
}

/// The three header words of a buffer of at least 12 bytes.
pub open spec fn spec_header(bytes: Seq<u8>) -> BinaryHeader {
    BinaryHeader {
        symbol_table_location: spec_word(bytes[0], bytes[1], bytes[2], bytes[3]),
        data_section_location: spec_word(bytes[4], bytes[5], bytes[6], bytes[7]),
        code_section_location: spec_word(bytes[8], bytes[9], bytes[10], bytes[11]),
    }
}

/// The sections start after the header and lie contiguously in
/// ascending order: symbol table, then data, then code.
pub open spec fn header_ordered(h: BinaryHeader) -> bool {
    &&& 12 <= h.symbol_table_location
    &&& h.symbol_table_location <= h.data_section_location
    &&& h.data_section_location <= h.code_section_location
}

/// The mathematical image of a symbol table: name bytes and offset.
pub open spec fn sym_model(entries: Seq<SymbolEntry>) -> Seq<(Seq<u8>, i32)> {
    entries.map(|k: int, e: SymbolEntry| (e.name@, e.offset))
}

/// Parses a symbol-table region: a sequence of entries, each one a
/// length byte, that many name bytes, and a four-byte big-endian code
/// offset. `None` when an entry is truncated, when leftover bytes form
/// no complete entry, or when an offset lies outside `[0, code_len)`.
pub open spec fn spec_parse_symbols(region: Seq<u8>, code_len: int) -> Option<
    Seq<(Seq<u8>, i32)>,
>
    decreases region.len(),
{
    if region.len() == 0 {
        Some(Seq::empty())
    } else {
        let n = region[0] as int;
        if region.len() < 1 + n + 4 {
            None
        } else {
            let name = region.subrange(1, 1 + n);
            let off = spec_word(region[1 + n], region[2 + n], region[3 + n], region[4 + n]);
            if !(0 <= off && off < code_len) {
                None
            } else {
                match spec_parse_symbols(region.skip(5 + n), code_len) {
                    None => None,
                    Some(rest) => Some(seq![(name, off)].add(rest)),
                }
            }
        }
    }
}

/// The code offset of the first entry named `name`, or `None` when no
/// entry has that name.
pub open spec fn spec_symbol_lookup(tab: Seq<(Seq<u8>, i32)>, name: Seq<u8>) -> Option<i32>
    decreases tab.len(),
{
    if tab.len() == 0 {
        None
    } else if tab[0].0 == name {
        Some(tab[0].1)
    } else {
        spec_symbol_lookup(tab.drop_first(), name)
    }
}

/// Byte-wise equality of two slices.
fn bytes_equal(a: &[u8], b: &[u8]) -> (r: bool)
    ensures
        r == (a@ == b@),
{
    if a.len() != b.len() {
        return false;
    }
    let mut k: usize = 0;
    while k < a.len()
        invariant
            k <= a@.len(),
            a@.len() == b@.len(),
            forall|j: int| 0 <= j < k ==> a@[j] == b@[j],
        decreases a@.len() - k,
    {
        if a[k] != b[k] {
            return false;
        }
        k += 1;
    }
    proof {
        assert(a@ =~= b@);
    }
    true
}

/// What loading a whole buffer yields: the symbol table's model, the
/// data section and the code section — or the first failure, checked in
/// the order header length, header ordering, section truncation, symbol
/// table.
pub open spec fn spec_load(bytes: Seq<u8>) -> Result<
    (Seq<(Seq<u8>, i32)>, Seq<u8>, Seq<u8>),
    LoaderError,
> {
    if bytes.len() < 12 {
        Err(LoaderError::InvalidHeader)
    } else {
        let h = spec_header(bytes);
        if !header_ordered(h) {
            Err(LoaderError::InvalidHeader)
        } else if h.code_section_location > bytes.len() {
            Err(LoaderError::TruncatedSection)
        } else {
            let s = h.symbol_table_location as int;
            let d = h.data_section_location as int;
            let c = h.code_section_location as int;
            match spec_parse_symbols(bytes.subrange(s, d), bytes.len() - c) {
                None => Err(LoaderError::InvalidSymbolTable),
                Some(tab) => Ok(
                    (tab, bytes.subrange(d, c), bytes.subrange(c, bytes.len() as int)),
                ),
            }
        }
    }
}

impl BinaryHeader {
    /// Reads the three header words; `None` exactly when fewer than 12
    /// bytes are given.
    pub fn extract_from_bytes(bytes: &[u8]) -> (r: Option<BinaryHeader>)
        ensures
            bytes@.len() >= 12 ==> r == Some(spec_header(bytes@)),
            bytes@.len() < 12 ==> r is None,
    {
        if bytes.len() < 12 {
            None
        } else {
            Some(
                BinaryHeader {
                    symbol_table_location: interpret_big_endian_word(
                        bytes[0],
                        bytes[1],
                        bytes[2],
                        bytes[3],
                    ),
                    data_section_location: interpret_big_endian_word(
                        bytes[4],
                        bytes[5],
                        bytes[6],
                        bytes[7],
                    ),
                    code_section_location: interpret_big_endian_word(
                        bytes[8],
                        bytes[9],
                        bytes[10],
                        bytes[11],
                    ),
                },
            )
        }
    }
}

/// Parses the symbol-table region against a code section of
/// `code_len` bytes, realising `spec_parse_symbols`: the entries in
/// order on success, `InvalidSymbolTable` exactly when that parse
/// fails.
pub fn parse_symbol_table(region: &[u8], code_len: usize) -> (r: Result<
    Vec<SymbolEntry>,
    LoaderError,
>)
    ensures
        match r {
            Ok(entries) => spec_parse_symbols(region@, code_len as int) == Some(
                sym_model(entries@),
            ),
            Err(e) => e == LoaderError::InvalidSymbolTable && spec_parse_symbols(
                region@,
                code_len as int,
            ) is None,
        },
{
    let mut out: Vec<SymbolEntry> = Vec::new();
    let mut pos: usize = 0;
    proof {
        assert(region@.skip(0) =~= region@);
        match spec_parse_symbols(region@, code_len as int) {
            Some(rest) => {
                assert(sym_model(out@).add(rest) =~= rest);
            },
            None => {},
        }
    }
    while pos < region.len()
        invariant
            pos <= region@.len(),
            spec_parse_symbols(region@, code_len as int) == (match spec_parse_symbols(
                region@.skip(pos as int),
                code_len as int,
            ) {
                None => None::<Seq<(Seq<u8>, i32)>>,
                Some(rest) => Some(sym_model(out@).add(rest)),
            }),
        decreases region@.len() - pos,
    {
        let ghost tail = region@.skip(pos as int);
        let n = region[pos] as usize;
        if region.len() - pos < 1 + n + 4 {
            return Err(LoaderError::InvalidSymbolTable);
        }
        let name = slice_to_vec(slice_subrange(region, pos + 1, pos + 1 + n));
        let off = interpret_big_endian_word(
            region[pos + 1 + n],
            region[pos + 2 + n],
            region[pos + 3 + n],
            region[pos + 4 + n],
        );
        proof {
            assert(tail[0] == region@[pos as int]);
            assert(name@ =~= tail.subrange(1, 1 + n));
        }
        if off < 0 || off as usize >= code_len {
            return Err(LoaderError::InvalidSymbolTable);
        }
        let ghost old_out = out@;
        out.push(SymbolEntry { name, offset: off });
        pos = pos + 5 + n;
        proof {
            assert(region@.skip(pos as int) =~= tail.skip(5 + n));
            assert(sym_model(out@) =~= sym_model(old_out).push((out@.last().name@, off)));
            assert(forall|rest: Seq<(Seq<u8>, i32)>|
                sym_model(old_out).add(#[trigger] (seq![(out@.last().name@, off)].add(rest)))
                    =~= sym_model(out@).add(rest));
        }
    }
    proof {
        assert(region@.skip(pos as int) =~= Seq::<u8>::empty());
        assert(sym_model(out@).add(Seq::empty()) =~= sym_model(out@));
    }
    Ok(out)
}

impl LoadedProgram {
    /// Loads a whole binary image, realising `spec_load`: the symbol
    /// table, data section and code section on success, or the first of
    /// `InvalidHeader`, `TruncatedSection` and `InvalidSymbolTable`.
    pub fn from_binary_bytes(bytes: Vec<u8>) -> (r: Result<LoadedProgram, LoaderError>)
        ensures
            match r {
                Ok(p) => spec_load(bytes@) matches Ok(t) && sym_model(p.symbol_table@) == t.0
                    && p.data@ == t.1 && p.code@ == t.2,
                Err(e) => spec_load(bytes@) matches Err(e2) && e == e2,
            },
    {
        let blen = bytes.len();
        let header = match BinaryHeader::extract_from_bytes(bytes.as_slice()) {
            Some(h) => h,
            None => {
                return Err(LoaderError::InvalidHeader);
            },
        };
        let s = header.symbol_table_location;
        let d = header.data_section_location;
        let c = header.code_section_location;
        if s < 12 || d < s || c < d {
            return Err(LoaderError::InvalidHeader);
        }
        if c as usize > blen {
            return Err(LoaderError::TruncatedSection);
        }
        let code_len = blen - c as usize;
        let region = slice_subrange(bytes.as_slice(), s as usize, d as usize);
        let symbol_table = match parse_symbol_table(region, code_len) {
            Ok(entries) => entries,
            Err(e) => {
                return Err(e);
            },
        };
        let data = slice_to_vec(slice_subrange(bytes.as_slice(), d as usize, c as usize));
        let code = slice_to_vec(slice_subrange(bytes.as_slice(), c as usize, blen));
        Ok(LoadedProgram { symbol_table, code, data })
    }

    /// The symbol table as a mapping: the code offset recorded for
    /// `name` (the first entry, should the image repeat a name), or
    /// `None` when the table has no such symbol.
    pub fn symbol_offset(&self, name: &[u8]) -> (r: Option<i32>)
        ensures
            r == spec_symbol_lookup(sym_model(self.symbol_table@), name@),
    {
        let ghost tab = sym_model(self.symbol_table@);
        let mut k: usize = 0;
        proof {
            assert(tab.skip(0) =~= tab);
        }
        while k < self.symbol_table.len()
            invariant
                k <= self.symbol_table@.len(),
                tab == sym_model(self.symbol_table@),
                spec_symbol_lookup(tab, name@) == spec_symbol_lookup(tab.skip(k as int), name@),
            decreases self.symbol_table@.len() - k,
        {
            let entry = &self.symbol_table[k];
            if bytes_equal(entry.name.as_slice(), name) {
                proof {
                    assert(tab.skip(k as int)[0] == tab[k as int]);
                }
                return Some(entry.offset);
            }
            proof {
                assert(tab.skip(k as int).drop_first() =~= tab.skip(k as int + 1));
            }
            k += 1;
        }
        proof {
            assert(tab.skip(k as int) =~= Seq::<(Seq<u8>, i32)>::empty());
        }
        None
    }
}

} // verus!
