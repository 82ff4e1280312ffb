//! Reflected, table-driven CRC-16 (polynomial 0xA001) and CRC-32
//! (polynomial 0xEDB88320).
use vstd::prelude::*;
use vstd::string::StringSliceAdditionalSpecFns;

verus! {

/// Reflected CRC-16 polynomial.
pub const CRC16_POLY: u16 = 0xA001;

/// One bit of the reflected table construction: shift right, and fold in the
/// polynomial when the bit shifted out was set.
pub open spec fn reflect_step16(poly: u16, v: u16) -> u16 {
    if v & 1 == 1 {
        (v >> 1) ^ poly
    } else {
        v >> 1
    }
}

/// `k` bit steps applied to `v`.
pub open spec fn reflect_rounds16(poly: u16, v: u16, k: nat) -> u16
    decreases k,
{
    if k == 0 {
        v
    } else {
        reflect_step16(poly, reflect_rounds16(poly, v, (k - 1) as nat))
    }
}

/// The 256-entry lookup table for a reflected 16-bit polynomial.
pub open spec fn crc16_table_of(poly: u16) -> Seq<u16> {
    Seq::new(256, |i: int| reflect_rounds16(poly, i as u16, 8))
}

/// Table entry `i` for the CRC-16 polynomial.
pub open spec fn crc16_entry(i: u16) -> u16 {
    reflect_rounds16(CRC16_POLY, i, 8)
}

/// The CRC-16 of `data`: start from 0 and fold each byte through the table,
/// with no final transform.
pub open spec fn crc16(data: Seq<u8>) -> u16
    decreases data.len(),
{
    if data.len() == 0 {
        0
    } else {
        let acc = crc16(data.drop_last());
        crc16_entry((data.last() as u16) ^ (acc & 0xFF)) ^ (acc >> 8)
    }
}

/// A CRC-16 engine whose table is built on first use and kept.
pub struct HashCRC16 {
    table: Option<Vec<u16>>,
}

impl HashCRC16 {
    /// The table held, if it has been built.
    pub closed spec fn table_view(&self) -> Option<Seq<u16>> {
        match self.table {
            Some(t) => Some(t@),
            None => None,
        }
    }

    /// Any table held is the CRC-16 table.
    pub open spec fn wf(&self) -> bool {
        self.table_view() is Some ==> self.table_view() == Some(crc16_table_of(CRC16_POLY))
    }

    /// Whether the table has been built.
    pub open spec fn is_built(&self) -> bool {
        self.table_view() is Some
    }

    fn init(&mut self)
        ensures
            final(self).table_view() == Some(crc16_table_of(CRC16_POLY)),
    {
        let mut table: Vec<u16> = Vec::new();
        let mut i: usize = 0;
        while i < 256
            invariant
                i <= 256,
                table@.len() == i,
                forall|j: int| 0 <= j < i ==> table@[j] == reflect_rounds16(CRC16_POLY, j as u16, 8),
            decreases 256 - i,
        {
            let mut val: u16 = i as u16;
            let mut k: usize = 0;
            while k < 8
                invariant
                    k <= 8,
                    i < 256,
                    val == reflect_rounds16(CRC16_POLY, i as u16, k as nat),
                decreases 8 - k,
            {
                if val & 1 == 1 {
                    val = (val >> 1) ^ CRC16_POLY;
                } else {
                    val = val >> 1;
                }
                k = k + 1;
            }
            table.push(val);
            i = i + 1;
        }
        assert(table@ =~= crc16_table_of(CRC16_POLY));
        self.table = Some(table);
    }

    /// The CRC-16 of `data`. Builds the table on the first call.
    pub fn calc_hash(&mut self, data: &[u8]) -> (r: u16)
        requires
            old(self).wf(),
        ensures
            r == crc16(data@),
            final(self).wf(),
            final(self).is_built(),
    {
        if self.table.is_none() {
            self.init();
        }
        let mut ret: u16 = 0;
        match &self.table {
            Some(table) => {
                let mut i: usize = 0;
                while i < data.len()
                    invariant
                        i <= data@.len(),
                        table@ == crc16_table_of(CRC16_POLY),
                        ret == crc16(data@.take(i as int)),
                    decreases data@.len() - i,
                {
                    let b: u8 = data[i];
                    let idx: u16 = (b as u16) ^ (ret & 0xFF);
                    assert(idx < 256) by (bit_vector)
                        requires
                            idx == (b as u16) ^ (ret & 0xFF),
                    ;
                    assert(data@.take(i + 1).drop_last() =~= data@.take(i as int));
                    ret = table[idx as usize] ^ (ret >> 8);
                    i = i + 1;
                }
                assert(data@.take(data@.len() as int) =~= data@);
            },
            None => {},
        }
        ret
    }

    /// The CRC-16 of the UTF-8 bytes of `data`.
    pub fn calc_string_hash(&mut self, data: &str) -> (r: u16)
        requires
            old(self).wf(),
        ensures
            r == crc16(data.spec_bytes()),
            final(self).wf(),
            final(self).is_built(),
    {
        self.calc_hash(data.as_bytes())
    }
}

impl Default for HashCRC16 {
    fn default() -> (r: Self)
        ensures
            r.wf(),
            !r.is_built(),
    {
        HashCRC16 { table: None }
    }
}
/// Reflected CRC-32 polynomial.
pub const CRC32_POLY: u32 = 0xEDB88320;

/// One bit of the reflected table construction, on 32-bit registers.
pub open spec fn reflect_step32(poly: u32, v: u32) -> u32 {
    if v & 1 == 1 {
        (v >> 1) ^ poly
    } else {
        v >> 1
    }
}

/// `k` bit steps applied to `v`.
pub open spec fn reflect_rounds32(poly: u32, v: u32, k: nat) -> u32
    decreases k,
{
    if k == 0 {
        v
    } else {
        reflect_step32(poly, reflect_rounds32(poly, v, (k - 1) as nat))
    }
}

/// The 256-entry lookup table for a reflected 32-bit polynomial.
pub open spec fn crc32_table_of(poly: u32) -> Seq<u32> {
    Seq::new(256, |i: int| reflect_rounds32(poly, i as u32, 8))
}

/// Table entry `i` for the CRC-32 polynomial.
pub open spec fn crc32_entry(i: u32) -> u32 {
    reflect_rounds32(CRC32_POLY, i, 8)
}

/// The CRC-32 register after folding `data` through the table, starting
/// from all ones.
pub open spec fn crc32_register(data: Seq<u8>) -> u32
    decreases data.len(),
{
    if data.len() == 0 {
        0xFFFF_FFFF
    } else {
        let acc = crc32_register(data.drop_last());
        crc32_entry((data.last() as u32) ^ (acc & 0xFF)) ^ (acc >> 8)
    }
}

/// The CRC-32 of `data`: the complement of the final register.
pub open spec fn crc32(data: Seq<u8>) -> u32 {
    !crc32_register(data)
}

/// A CRC-32 engine whose table is built on first use and kept.
pub struct HashCRC32 {
    table: Option<Vec<u32>>,
}

impl HashCRC32 {
    /// The table held, if it has been built.
    pub closed spec fn table_view(&self) -> Option<Seq<u32>> {
        match self.table {
            Some(t) => Some(t@),
            None => None,
        }
    }

    /// Any table held is the CRC-32 table.
    pub open spec fn wf(&self) -> bool {
        self.table_view() is Some ==> self.table_view() == Some(crc32_table_of(CRC32_POLY))
    }

    /// Whether the table has been built.
    pub open spec fn is_built(&self) -> bool {
        self.table_view() is Some
    }

    /// Builds the table (again, if it was already built).
    pub fn init(&mut self)
        ensures
            final(self).table_view() == Some(crc32_table_of(CRC32_POLY)),
    {
        let mut table: Vec<u32> = Vec::new();
        let mut i: usize = 0;
        while i < 256
            invariant
                i <= 256,
                table@.len() == i,
                forall|j: int| 0 <= j < i ==> table@[j] == reflect_rounds32(CRC32_POLY, j as u32, 8),
            decreases 256 - i,
        {
            let mut val: u32 = i as u32;
            let mut k: usize = 0;
            while k < 8
                invariant
                    k <= 8,
                    i < 256,
                    val == reflect_rounds32(CRC32_POLY, i as u32, k as nat),
                decreases 8 - k,
            {
                if val & 1 == 1 {
                    val = (val >> 1) ^ CRC32_POLY;
                } else {
                    val = val >> 1;
                }
                k = k + 1;
            }
            table.push(val);
            i = i + 1;
        }
        assert(table@ =~= crc32_table_of(CRC32_POLY));
        self.table = Some(table);
    }

    /// The CRC-32 of `data`. Builds the table on the first call.
    pub fn calc_hash(&mut self, data: &[u8]) -> (r: u32)
        requires
            old(self).wf(),
        ensures
            r == crc32(data@),
            final(self).wf(),
            final(self).is_built(),
    {
        if self.table.is_none() {
            self.init();
        }
        let mut ret: u32 = u32::MAX;
        match &self.table {
            Some(table) => {
                let mut i: usize = 0;
                while i < data.len()
                    invariant
                        i <= data@.len(),
                        table@ == crc32_table_of(CRC32_POLY),
                        ret == crc32_register(data@.take(i as int)),
                    decreases data@.len() - i,
                {
                    let b: u8 = data[i];
                    let idx: u32 = (b as u32) ^ (ret & 0xFF);
                    assert(idx < 256) by (bit_vector)
                        requires
                            idx == (b as u32) ^ (ret & 0xFF),
                    ;
                    assert(data@.take(i + 1).drop_last() =~= data@.take(i as int));
                    ret = table[idx as usize] ^ (ret >> 8);
                    i = i + 1;
                }
                assert(data@.take(data@.len() as int) =~= data@);
            },
            None => {},
        }
        !ret
    }

    /// The CRC-32 of the UTF-8 bytes of `data`.
    pub fn calc_string_hash(&mut self, data: &str) -> (r: u32)
        requires
            old(self).wf(),
        ensures
            r == crc32(data.spec_bytes()),
            final(self).wf(),
            final(self).is_built(),
    {
        self.calc_hash(data.as_bytes())
    }
}

impl Default for HashCRC32 {
    fn default() -> (r: Self)
        ensures
            r.wf(),
            !r.is_built(),
    {
        HashCRC32 { table: None }
    }
}

/// Table determinism: whenever an engine holds a table, it is the one that
/// its polynomial determines, so every build yields the identical table.
pub proof fn lemma_crc_tables_rebuilt_identically(a: HashCRC16, b: HashCRC16, c: HashCRC32, d: HashCRC32)
    requires
        a.wf(),
        b.wf(),
        c.wf(),
        d.wf(),
        a.is_built(),
        b.is_built(),
        c.is_built(),
        d.is_built(),
    ensures
        a.table_view() == b.table_view(),
        a.table_view() == Some(crc16_table_of(CRC16_POLY)),
        c.table_view() == d.table_view(),
        c.table_view() == Some(crc32_table_of(CRC32_POLY)),
{
}

} // verus!
