//! Generic decoder of fixed-width unsigned fields laid out back to back.
use vstd::prelude::*;

verus! {

/// Width of one unsigned field.
#[derive(Debug, Clone, Copy, PartialEq, Eq, Structural)]
pub enum FieldWidth {
    U8,
    U16,
    U32,
}

/// Byte order in which every field of a layout is read.
#[derive(Debug, Clone, Copy, PartialEq, Eq, Structural)]
pub enum ByteOrder {
    Big,
    Little,
}

/// One named field of a layout.
#[derive(Debug, Clone, Copy)]
pub struct FieldSpec {
    pub name: &'static str,
    pub width: FieldWidth,
}

/// The input is too short for the structure that was asked for, or the
/// structure's contents are not acceptable.
#[derive(Debug, Clone, Copy, PartialEq, Eq, Structural)]
pub struct StructureError;

pub open spec fn width_bytes(w: FieldWidth) -> nat {
    match w {
        FieldWidth::U8 => 1,
        FieldWidth::U16 => 2,
        FieldWidth::U32 => 4,
    }
}

/// Byte offset of field `i`: the widths of the fields before it, summed.
pub open spec fn field_offset(layout: Seq<FieldSpec>, i: int) -> nat
    decreases i,
{
    if i <= 0 {
        0
    } else {
        field_offset(layout, i - 1) + width_bytes(layout[i - 1].width)
    }
}

/// Number of bytes that a layout covers.
pub open spec fn layout_size(layout: Seq<FieldSpec>) -> nat {
    field_offset(layout, layout.len() as int)
}

/// Unsigned value of bytes read most significant first.
pub open spec fn be_value(s: Seq<u8>) -> nat
    decreases s.len(),
{
    if s.len() == 0 {
        0
    } else {
        (be_value(s.drop_last()) * 256 + s.last()) as nat
    }
}

/// Unsigned value of bytes read least significant first.
pub open spec fn le_value(s: Seq<u8>) -> nat
    decreases s.len(),
{
    if s.len() == 0 {
        0
    } else {
        (s[0] + 256 * le_value(s.skip(1))) as nat
    }
}

pub open spec fn order_value(s: Seq<u8>, order: ByteOrder) -> nat {
    match order {
        ByteOrder::Big => be_value(s),
        ByteOrder::Little => le_value(s),
    }
}

/// Value of field `i` of `layout` in `data`.
pub open spec fn field_value(data: Seq<u8>, layout: Seq<FieldSpec>, order: ByteOrder, i: int) -> nat {
    let start = field_offset(layout, i);
    order_value(data.subrange(start as int, (start + width_bytes(layout[i].width)) as int), order)
}

pub open spec fn pow256(k: nat) -> nat
    decreases k,
{
    if k == 0 {
        1
    } else {
        256 * pow256((k - 1) as nat)
    }
}

proof fn lemma_pow256_le_4(k: nat)
    requires
        k <= 4,
    ensures
        1 <= pow256(k) <= 0x1_0000_0000,
{
    reveal_with_fuel(pow256, 5);
}

proof fn lemma_field_offset_monotonic(layout: Seq<FieldSpec>, i: int, j: int)
    requires
        0 <= i <= j,
    ensures
        field_offset(layout, i) <= field_offset(layout, j),
    decreases j - i,
{
    if i < j {
        lemma_field_offset_monotonic(layout, i, j - 1);
    }
}

/// Number of bytes that `layout` covers.
pub fn size(layout: &Vec<FieldSpec>) -> (r: usize)
    requires
        layout_size(layout@) <= usize::MAX,
    ensures
        r == layout_size(layout@),
{
    let mut total: usize = 0;
    let mut i: usize = 0;
    while i < layout.len()
        invariant
            i <= layout@.len(),
            total == field_offset(layout@, i as int),
            layout_size(layout@) <= usize::MAX,
        decreases layout@.len() - i,
    {
        proof {
            lemma_field_offset_monotonic(layout@, i + 1, layout@.len() as int);
        }
        total = total + width_of(layout[i].width);
        i = i + 1;
    }
    total
}

fn width_of(w: FieldWidth) -> (r: usize)
    ensures
        r == width_bytes(w),
{
    match w {
        FieldWidth::U8 => 1,
        FieldWidth::U16 => 2,
        FieldWidth::U32 => 4,
    }
}

/// Value of `data[start..start + len]` read in `order`; `len` is at most four.
fn read_unsigned(data: &[u8], start: usize, len: usize, order: ByteOrder) -> (r: u32)
    requires
        len <= 4,
        start + len <= data@.len(),
    ensures
        r == order_value(data@.subrange(start as int, start + len), order),
{
    let ghost s = data@.subrange(start as int, start + len);
    let mut v: u64 = 0;
    let mut k: usize = 0;
    match order {
        ByteOrder::Big => {
            while k < len
                invariant
                    k <= len <= 4,
                    start + len <= data.len(),
                    s == data@.subrange(start as int, start + len),
                    v == be_value(s.take(k as int)),
                    v < pow256(k as nat),
                decreases len - k,
            {
                proof {
                    lemma_pow256_le_4((k + 1) as nat);
                    assert(s.take(k + 1).drop_last() =~= s.take(k as int));
                    assert(v * 256 + 255 < pow256((k + 1) as nat)) by (nonlinear_arith)
                        requires
                            v < pow256(k as nat),
                            pow256((k + 1) as nat) == 256 * pow256(k as nat),
                    ;
                }
                v = v * 256 + data[start + k] as u64;
                k = k + 1;
            }
            assert(s.take(len as int) =~= s);
            proof {
                lemma_pow256_le_4(len as nat);
            }
            v as u32
        },
        ByteOrder::Little => {
            while k < len
                invariant
                    k <= len <= 4,
                    start + len <= data.len(),
                    s == data@.subrange(start as int, start + len),
                    v == le_value(s.subrange(len - k, len as int)),
                    v < pow256(k as nat),
                decreases len - k,
            {
                proof {
                    lemma_pow256_le_4((k + 1) as nat);
                    assert(s.subrange(len - k - 1, len as int).skip(1) =~= s.subrange(
                        len - k,
                        len as int,
                    ));
                    assert(v * 256 + 255 < pow256((k + 1) as nat)) by (nonlinear_arith)
                        requires
                            v < pow256(k as nat),
                            pow256((k + 1) as nat) == 256 * pow256(k as nat),
                    ;
                }
                v = data[start + len - k - 1] as u64 + 256 * v;
                k = k + 1;
            }
            assert(s.subrange(0, len as int) =~= s);
            proof {
                lemma_pow256_le_4(len as nat);
            }
            v as u32
        },
    }
}

/// Decodes every field of `layout` from the front of `data`, in `order`.
/// Fails, before reading anything, when `data` is shorter than the layout.
pub fn parse(data: &[u8], layout: &Vec<FieldSpec>, order: ByteOrder) -> (r: Result<
    Vec<u32>,
    StructureError,
>)
    ensures
        r is Err <==> data@.len() < layout_size(layout@),
        r matches Ok(values) ==> values@.len() == layout@.len() && forall|i: int|
            0 <= i < layout@.len() ==> values@[i] == field_value(data@, layout@, order, i),
{
    // Sum the widths first, stopping as soon as the data cannot hold them.
    let mut total: usize = 0;
    let mut i: usize = 0;
    while i < layout.len()
        invariant
            i <= layout@.len(),
            total == field_offset(layout@, i as int),
            total <= data@.len(),
        decreases layout@.len() - i,
    {
        let w = width_of(layout[i].width);
        if w > data.len() - total {
            proof {
                lemma_field_offset_monotonic(layout@, i + 1, layout@.len() as int);
            }
            return Err(StructureError);
        }
        total = total + w;
        i = i + 1;
    }
    let mut values: Vec<u32> = Vec::new();
    let mut offset: usize = 0;
    let mut j: usize = 0;
    while j < layout.len()
        invariant
            j <= layout@.len(),
            offset == field_offset(layout@, j as int),
            layout_size(layout@) <= data.len(),
            values@.len() == j,
            forall|m: int| 0 <= m < j ==> values@[m] == field_value(data@, layout@, order, m),
        decreases layout@.len() - j,
    {
        proof {
            lemma_field_offset_monotonic(layout@, j + 1, layout@.len() as int);
        }
        let w = width_of(layout[j].width);
        let v = read_unsigned(data, offset, w, order);
        values.push(v);
        offset = offset + w;
        j = j + 1;
    }
    Ok(values)
}

} // verus!
