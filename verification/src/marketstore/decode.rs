//! Decoding what the store sends: columns of a query, and rows of a stream.
//!
//! A query's result is column-oriented: parallel lists of column names, column types (such as
//! `<i8` or `<f4`) and column data, one little-endian block of bytes per column. Numbers are kept
//! in the form they are stored in; see [`Number`].

use vstd::arithmetic::div_mod::lemma_div_denominator;
use vstd::arithmetic::power::{lemma_pow_increases, lemma_pow_positive, pow};
use vstd::prelude::*;

use crate::decimal::digits;
use crate::text::{
    chars_of, digits_write_out, is_digit, lowered, nat_text, same_text, split, split_joined,
    split_single, views,
};

verus! {

/// A result set: columns of one length.
#[derive(Clone, Debug)]
pub struct NumpyDataset {
    pub column_types: Vec<String>,
    pub column_names: Vec<String>,
    pub column_data: Vec<Vec<u8>>,
    /// The number of rows.
    pub length: i32,
}

/// The result of a query, if it has one.
#[derive(Clone, Debug)]
pub struct NumpyMultiDataset {
    pub data: Option<NumpyDataset>,
}

/// A stored number, by its type. The floating-point ones are held as their bits.
#[derive(Clone, Copy, Debug, PartialEq, Eq, Structural)]
pub enum Number {
    /// The bits of a single-precision number.
    F4(u32),
    /// The bits of a double-precision number.
    F8(u64),
    I8(i64),
    I4(i32),
    U8(u64),
    U4(u32),
}

/// The stored types of numbers.
#[derive(Clone, Copy, Debug, PartialEq, Eq, Structural)]
pub enum NumberType {
    F4,
    F8,
    I8,
    I4,
    U8,
    U4,
}

// ----- bytes -----

/// The number that `width` bytes from `at` on write out, the least significant first.
pub open spec fn little_endian(bytes: Seq<u8>, at: int, width: nat) -> nat
    decreases width,
{
    if width == 0 {
        0
    } else {
        (bytes[at] as nat) + 256 * little_endian(bytes, at + 1, (width - 1) as nat)
    }
}

/// The number that 32 bits write out in two's complement.
pub open spec fn signed_32(n: nat) -> int {
    if n < 0x8000_0000 {
        n as int
    } else {
        n - 0x1_0000_0000
    }
}

/// The number that 64 bits write out in two's complement.
pub open spec fn signed_64(n: nat) -> int {
    if n < 0x8000_0000_0000_0000 {
        n as int
    } else {
        n - 0x1_0000_0000_0000_0000
    }
}

proof fn little_endian_bound(bytes: Seq<u8>, at: int, width: nat)
    ensures
        little_endian(bytes, at, width) < pow(256, width),
    decreases width,
{
    reveal(pow);
    if width > 0 {
        little_endian_bound(bytes, at + 1, (width - 1) as nat);
    }
}

proof fn width_bounds()
    ensures
        pow(256, 3) == 0x100_0000,
        pow(256, 4) == 0x1_0000_0000,
        pow(256, 7) == 0x100_0000_0000_0000,
        pow(256, 8) == 0x1_0000_0000_0000_0000,
{
    reveal_with_fuel(pow, 9);
}

/// The number that eight bytes from `at` on write out.
fn read_u64(bytes: &[u8], at: usize) -> (r: u64)
    requires
        at + 8 <= bytes@.len(),
    ensures
        r == little_endian(bytes@, at as int, 8),
{
    let mut value: u64 = 0;
    let mut i: usize = 8;
    let len: usize = bytes.len();
    while i > 0
        invariant
            0 <= i <= 8,
            at + 8 <= len == bytes@.len(),
            value == little_endian(bytes@, at + i, (8 - i) as nat),
        decreases i,
    {
        i = i - 1;
        proof {
            little_endian_bound(bytes@, at + i + 1, (7 - i) as nat);
            width_bounds();
            lemma_pow_increases(256, (7 - i) as nat, 7);
        }
        value = value * 256 + bytes[at + i] as u64;
    }
    value
}

/// The number that four bytes from `at` on write out.
fn read_u32(bytes: &[u8], at: usize) -> (r: u32)
    requires
        at + 4 <= bytes@.len(),
    ensures
        r == little_endian(bytes@, at as int, 4),
{
    let mut value: u32 = 0;
    let mut i: usize = 4;
    let len: usize = bytes.len();
    while i > 0
        invariant
            0 <= i <= 4,
            at + 4 <= len == bytes@.len(),
            value == little_endian(bytes@, at + i, (4 - i) as nat),
        decreases i,
    {
        i = i - 1;
        proof {
            little_endian_bound(bytes@, at + i + 1, (3 - i) as nat);
            width_bounds();
            lemma_pow_increases(256, (3 - i) as nat, 3);
        }
        value = value * 256 + bytes[at + i] as u32;
    }
    value
}

/// The number that 64 bits write out in two's complement.
fn to_signed_64(n: u64) -> (r: i64)
    ensures
        r == signed_64(n as nat),
{
    if n < 0x8000_0000_0000_0000 {
        n as i64
    } else {
        (n as i128 - 0x1_0000_0000_0000_0000) as i64
    }
}

/// The number that 32 bits write out in two's complement.
fn to_signed_32(n: u32) -> (r: i32)
    ensures
        r == signed_32(n as nat),
{
    if n < 0x8000_0000 {
        n as i32
    } else {
        (n as i64 - 0x1_0000_0000) as i32
    }
}

impl NumberType {
    /// The bytes of a number of this type.
    pub open spec fn width(self) -> nat {
        match self {
            NumberType::F4 | NumberType::I4 | NumberType::U4 => 4,
            NumberType::F8 | NumberType::I8 | NumberType::U8 => 8,
        }
    }

    /// The number of this type that the bytes from `at` on write out.
    pub open spec fn at(self, bytes: Seq<u8>, at: int) -> Number {
        match self {
            NumberType::F4 => Number::F4(little_endian(bytes, at, 4) as u32),
            NumberType::F8 => Number::F8(little_endian(bytes, at, 8) as u64),
            NumberType::I8 => Number::I8(signed_64(little_endian(bytes, at, 8)) as i64),
            NumberType::I4 => Number::I4(signed_32(little_endian(bytes, at, 4)) as i32),
            NumberType::U8 => Number::U8(little_endian(bytes, at, 8) as u64),
            NumberType::U4 => Number::U4(little_endian(bytes, at, 4) as u32),
        }
    }

    /// The bytes of a number of this type.
    fn byte_width(self) -> (r: u64)
        ensures
            r == self.width(),
    {
        match self {
            NumberType::F4 | NumberType::I4 | NumberType::U4 => 4,
            NumberType::F8 | NumberType::I8 | NumberType::U8 => 8,
        }
    }

    /// The number of this type that the bytes from `at` on write out.
    fn read(self, bytes: &[u8], at: usize) -> (r: Number)
        requires
            at + self.width() <= bytes@.len(),
        ensures
            r == self.at(bytes@, at as int),
    {
        match self {
            NumberType::F4 => Number::F4(read_u32(bytes, at)),
            NumberType::F8 => Number::F8(read_u64(bytes, at)),
            NumberType::I8 => Number::I8(to_signed_64(read_u64(bytes, at))),
            NumberType::I4 => Number::I4(to_signed_32(read_u32(bytes, at))),
            NumberType::U8 => Number::U8(read_u64(bytes, at)),
            NumberType::U4 => Number::U4(read_u32(bytes, at)),
        }
    }
}

// ----- column types -----

/// Whether `c` marks a byte order.
pub open spec fn is_order_mark(c: char) -> bool {
    c == '<' || c == '>' || c == '=' || c == '|'
}

/// The first place from `i` on that holds no byte-order mark, or the length.
pub open spec fn after_marks(s: Seq<char>, i: int) -> int
    decreases s.len() - i,
{
    if 0 <= i < s.len() && is_order_mark(s[i]) {
        after_marks(s, i + 1)
    } else {
        i
    }
}

/// A column type without its byte-order marks, in lower case.
pub open spec fn plain_type(dtype: Seq<char>) -> Seq<char> {
    lowered(dtype.skip(after_marks(dtype, 0)))
}

/// A column type without its byte-order marks, in lower case.
pub fn normalize_dtype(dtype: &str) -> (r: String)
    ensures
        r@ == plain_type(dtype@),
{
    let chars = chars_of(dtype);
    let mut i: usize = 0;
    while i < chars.len() && (chars[i] == '<' || chars[i] == '>' || chars[i] == '=' || chars[i]
        == '|')
        invariant
            i <= chars@.len(),
            after_marks(chars@, 0) == after_marks(chars@, i as int),
        decreases chars@.len() - i,
    {
        i = i + 1;
    }
    let rest = dtype.substring_char(i, chars.len());
    assert(rest@ =~= dtype@.skip(i as int));
    rest.to_ascii_lowercase()
}

/// The stored type that a plain column type names, among those that hold numbers.
pub open spec fn number_type(plain: Seq<char>) -> Option<NumberType> {
    if plain == "f4"@ {
        Some(NumberType::F4)
    } else if plain == "f8"@ {
        Some(NumberType::F8)
    } else if plain == "i8"@ {
        Some(NumberType::I8)
    } else if plain == "i4"@ {
        Some(NumberType::I4)
    } else if plain == "u8"@ {
        Some(NumberType::U8)
    } else if plain == "u4"@ {
        Some(NumberType::U4)
    } else {
        None
    }
}

/// The stored type that a plain column type names, among those that hold signed whole numbers.
pub open spec fn whole_type(plain: Seq<char>) -> Option<NumberType> {
    if plain == "i8"@ {
        Some(NumberType::I8)
    } else if plain == "i4"@ {
        Some(NumberType::I4)
    } else {
        None
    }
}

// ----- columns -----

/// The contents of a column: its name, its type and its bytes.
#[verifier::ext_equal]
pub struct ColumnView {
    pub name: Seq<char>,
    pub dtype: Seq<char>,
    pub data: Seq<u8>,
}

/// What is said of a column whose bytes are not as many as its rows need.
pub open spec fn size_error(
    kind: Seq<char>,
    column: ColumnView,
    n: nat,
    width: nat,
) -> Seq<char> {
    kind + column.name + " expected "@ + digits(n * width) + " bytes ("@ + digits(n) + " x "@
        + digits(width) + "), got "@ + digits(column.data.len())
}

/// The numbers of a column whose type is `ty`.
pub open spec fn numbers_of(data: Seq<u8>, ty: NumberType, n: nat) -> Seq<Number> {
    Seq::new(n, |i: int| ty.at(data, i * ty.width()))
}

/// The numbers of a column of `n` rows, or what is wrong: the type first, then the size.
pub open spec fn read_numbers(column: ColumnView, n: nat) -> Result<Seq<Number>, Seq<char>> {
    match number_type(plain_type(column.dtype)) {
        None => Err(
            "column "@ + column.name + " has unexpected numeric dtype "@ + plain_type(
                column.dtype,
            ),
        ),
        Some(ty) => if column.data.len() != n * ty.width() {
            Err(size_error("column "@, column, n, ty.width()))
        } else {
            Ok(numbers_of(column.data, ty, n))
        },
    }
}

/// The value of a signed whole number.
pub open spec fn whole_value(x: Number) -> int {
    match x {
        Number::I8(v) => v as int,
        Number::I4(v) => v as int,
        _ => 0,
    }
}

/// The values of machine integers.
pub open spec fn as_ints(v: Seq<i64>) -> Seq<int> {
    v.map_values(|x: i64| x as int)
}

/// The whole numbers of a column of `n` rows, or what is wrong: the type first, then the size.
pub open spec fn read_wholes(column: ColumnView, n: nat) -> Result<Seq<int>, Seq<char>> {
    match whole_type(plain_type(column.dtype)) {
        None => Err(
            "column "@ + column.name + " has unexpected int dtype "@ + plain_type(column.dtype),
        ),
        Some(ty) => if column.data.len() != n * ty.width() {
            Err(size_error("column "@, column, n, ty.width()))
        } else {
            Ok(Seq::new(n, |i: int| whole_value(ty.at(column.data, i * ty.width()))))
        },
    }
}

/// A column.
#[derive(Clone, Copy, Debug)]
pub struct Column<'a> {
    pub name: &'a str,
    pub dtype: &'a str,
    pub data: &'a [u8],
}

impl<'a> Column<'a> {
    /// The contents of the column.
    pub open spec fn contents(self) -> ColumnView {
        ColumnView { name: self.name@, dtype: self.dtype@, data: self.data@ }
    }
}

/// The error of a column whose bytes are not as many as its rows need.
fn wrong_size(kind: &str, name: &str, n: u64, width: u64, got: usize) -> (r: String)
    requires
        n * width <= u64::MAX,
    ensures
        r@ == kind@ + name@ + " expected "@ + digits((n * width) as nat) + " bytes ("@ + digits(
            n as nat,
        ) + " x "@ + digits(width as nat) + "), got "@ + digits(got as nat),
{
    kind.to_owned().concat(name).concat(" expected ").concat(nat_text(n * width).as_str()).concat(
        " bytes (",
    ).concat(nat_text(n).as_str()).concat(" x ").concat(nat_text(width).as_str()).concat(
        "), got ",
    ).concat(nat_text(got as u64).as_str())
}

/// The numbers of type `ty` in a column of `n` rows.
fn read_le(column: &Column, n: usize, ty: NumberType) -> (r: Result<Vec<Number>, String>)
    requires
        n * 8 <= u64::MAX,
    ensures
        match r {
            Ok(v) => column.data@.len() == n * ty.width() && v@ == numbers_of(
                column.data@,
                ty,
                n as nat,
            ),
            Err(e) => column.data@.len() != n * ty.width() && e@ == size_error(
                "column "@,
                column.contents(),
                n as nat,
                ty.width(),
            ),
        },
{
    let width: u64 = ty.byte_width();
    assert(n * width <= n * 8) by (nonlinear_arith)
        requires
            width <= 8,
    ;
    let expected: u64 = n as u64 * width;
    let len: usize = column.data.len();
    if len as u64 != expected {
        return Err(wrong_size("column ", column.name, n as u64, width, len));
    }
    let mut out: Vec<Number> = Vec::new();
    let mut i: usize = 0;
    while i < n
        invariant
            i <= n,
            width == ty.width(),
            column.data@.len() == n * ty.width(),
            len == column.data@.len(),
            out@ == numbers_of(column.data@, ty, i as nat),
        decreases n - i,
    {
        assert((i + 1) * ty.width() <= n * ty.width()) by (nonlinear_arith)
            requires
                i + 1 <= n,
        ;
        assert((i + 1) * ty.width() == i * ty.width() + ty.width()) by (nonlinear_arith);
        assert(0 <= i * width <= len) by (nonlinear_arith)
            requires
                i <= n,
                width == ty.width(),
                len == n * ty.width(),
        ;
        let at: usize = i * width as usize;
        out.push(ty.read(column.data, at));
        i = i + 1;
    }
    Ok(out)
}

/// The numbers of a column of `n` rows. Reading undoes writing: a column that holds numbers gives
/// them back.
pub fn read_f64(column: &Column, n: usize) -> (r: Result<Vec<Number>, String>)
    requires
        n * 8 <= u64::MAX,
    ensures
        match (r, read_numbers(column.contents(), n as nat)) {
            (Ok(a), Ok(b)) => a@ == b,
            (Err(a), Err(b)) => a@ == b,
            _ => false,
        },
        forall|v: Seq<Number>, ty: NumberType|
            number_type(plain_type(column.dtype@)) == Some(ty) && all_stored_as(v, ty) && v.len()
                == n && column.data@ == #[trigger] column_of_numbers(v, ty) ==> (r matches Ok(a)
                && a@ == v),
{
    proof {
        assert forall|v: Seq<Number>, ty: NumberType|
            number_type(plain_type(column.dtype@)) == Some(ty) && all_stored_as(v, ty) && v.len()
                == n && column.data@ == #[trigger] column_of_numbers(v, ty) implies read_numbers(
            column.contents(),
            n as nat,
        ) == Ok::<Seq<Number>, Seq<char>>(v) by {
            columns_of_numbers_read_back(column.name@, column.dtype@, ty, v);
        }
    }
    let plain = normalize_dtype(column.dtype);
    let ty = if same_text(plain.as_str(), "f4") {
        NumberType::F4
    } else if same_text(plain.as_str(), "f8") {
        NumberType::F8
    } else if same_text(plain.as_str(), "i8") {
        NumberType::I8
    } else if same_text(plain.as_str(), "i4") {
        NumberType::I4
    } else if same_text(plain.as_str(), "u8") {
        NumberType::U8
    } else if same_text(plain.as_str(), "u4") {
        NumberType::U4
    } else {
        return Err(
            "column ".to_owned().concat(column.name).concat(" has unexpected numeric dtype ").concat(
                plain.as_str(),
            ),
        );
    };
    read_le(column, n, ty)
}

/// The whole numbers of a column of `n` rows. Reading undoes writing, for both widths: a column
/// that holds numbers of 64 bits, or of 32, gives them back. A column of any other type is an
/// error, whatever its bytes.
pub fn read_i64(column: &Column, n: usize) -> (r: Result<Vec<i64>, String>)
    requires
        n * 8 <= u64::MAX,
    ensures
        match (r, read_wholes(column.contents(), n as nat)) {
            (Ok(a), Ok(b)) => as_ints(a@) == b && b.len() == n,
            (Err(a), Err(b)) => a@ == b,
            _ => false,
        },
        forall|v: Seq<i64>|
            plain_type(column.dtype@) == "i8"@ && v.len() == n && column.data@
                == #[trigger] column_of_64(v) ==> (r matches Ok(a) && a@ == v),
        forall|v: Seq<i32>|
            plain_type(column.dtype@) == "i4"@ && v.len() == n && column.data@
                == #[trigger] column_of_32(v) ==> (r matches Ok(a) && a@ == widened(v)),
        plain_type(column.dtype@) != "i8"@ && plain_type(column.dtype@) != "i4"@ ==> r is Err,
{
    let plain = normalize_dtype(column.dtype);
    let ty = if same_text(plain.as_str(), "i8") {
        NumberType::I8
    } else if same_text(plain.as_str(), "i4") {
        NumberType::I4
    } else {
        return Err(
            "column ".to_owned().concat(column.name).concat(" has unexpected int dtype ").concat(
                plain.as_str(),
            ),
        );
    };
    let numbers = match read_le(column, n, ty) {
        Ok(v) => v,
        Err(e) => {
            proof {
                assert forall|v: Seq<i64>|
                    plain_type(column.dtype@) == "i8"@ && v.len() == n && column.data@
                        == #[trigger] column_of_64(v) implies false by {
                    columns_of_64_read_back(column.name@, column.dtype@, v);
                }
                assert forall|v: Seq<i32>|
                    plain_type(column.dtype@) == "i4"@ && v.len() == n && column.data@
                        == #[trigger] column_of_32(v) implies false by {
                    columns_of_32_read_back(column.name@, column.dtype@, v);
                }
            }
            return Err(e);
        },
    };
    let mut out: Vec<i64> = Vec::new();
    let mut i: usize = 0;
    while i < numbers.len()
        invariant
            i <= numbers@.len(),
            out@.len() == i,
            forall|k: int| 0 <= k < i ==> #[trigger] out@[k] == whole_value(numbers@[k]),
        decreases numbers@.len() - i,
    {
        out.push(
            match numbers[i] {
                Number::I8(v) => v,
                Number::I4(v) => v as i64,
                _ => 0,
            },
        );
        i = i + 1;
    }
    assert(as_ints(out@) =~= Seq::new(
        n as nat,
        |k: int| whole_value(ty.at(column.data@, k * ty.width())),
    ));
    proof {
        assert forall|v: Seq<i64>|
            plain_type(column.dtype@) == "i8"@ && v.len() == n && column.data@
                == #[trigger] column_of_64(v) implies out@ == v by {
            columns_of_64_read_back(column.name@, column.dtype@, v);
            same_ints(out@, v);
        }
        assert forall|v: Seq<i32>|
            plain_type(column.dtype@) == "i4"@ && v.len() == n && column.data@
                == #[trigger] column_of_32(v) implies out@ == widened(v) by {
            columns_of_32_read_back(column.name@, column.dtype@, v);
            same_ints(out@, widened(v));
        }
    }
    Ok(out)
}

// ----- text columns -----

/// The characters of one element of a text column.
pub const RUNES: usize = 16;

/// The bytes of one element of a text column.
pub const ELEMENT_BYTES: u64 = 64;

/// Whether `n` is the code of a character.
pub open spec fn is_char_code(n: nat) -> bool {
    n <= 0x10_ffff && !(0xd800 <= n <= 0xdfff)
}

/// `char::from_u32` gives the character that a number is the code of, if it is one.
pub assume_specification[ char::from_u32 ](n: u32) -> (r: Option<char>)
    ensures
        r is Some <==> is_char_code(n as nat),
        r matches Some(c) ==> c == n as char,
;

/// The text of the element at `at`, from its character `j` on: it ends at the first zero, and a
/// number that is no character's code is passed over.
pub open spec fn element_text(data: Seq<u8>, at: int, j: int) -> Seq<char>
    decreases RUNES - j,
{
    if j >= RUNES || j < 0 {
        Seq::empty()
    } else {
        let code = little_endian(data, at + 4 * j, 4);
        if code == 0 {
            Seq::empty()
        } else if is_char_code(code) {
            seq![(code as u32) as char] + element_text(data, at, j + 1)
        } else {
            element_text(data, at, j + 1)
        }
    }
}

/// Whether a plain column type holds texts.
pub open spec fn is_text_type(plain: Seq<char>) -> bool {
    ||| plain.len() > 0 && plain[0] == 's'
    ||| plain.len() >= 3 && plain[0] == 'u' && plain[1] == '1' && plain[2] == '6'
}

/// The texts of a column of `n` rows, or what is wrong: the type first, then the size.
pub open spec fn read_texts(column: ColumnView, n: nat) -> Result<Seq<Seq<char>>, Seq<char>> {
    if !is_text_type(plain_type(column.dtype)) {
        Err("column "@ + column.name + " has unexpected string dtype "@ + column.dtype)
    } else if column.data.len() != n * (ELEMENT_BYTES as nat) {
        Err(size_error("string column "@, column, n, ELEMENT_BYTES as nat))
    } else {
        Ok(Seq::new(n, |i: int| element_text(column.data, i * ELEMENT_BYTES, 0)))
    }
}

/// The text of the element at `at`.
fn read_element(data: &[u8], at: usize) -> (r: String)
    requires
        at + 64 <= data@.len(),
    ensures
        r@ == element_text(data@, at as int, 0),
{
    let len: usize = data.len();
    let mut s = String::new();
    let mut j: usize = 0;
    let ghost whole = element_text(data@, at as int, 0);
    assert(s@ + whole =~= whole);
    while j < RUNES
        invariant
            j <= RUNES,
            at + 64 <= len == data@.len(),
            whole == element_text(data@, at as int, 0),
            s@ + element_text(data@, at as int, j as int) == whole,
        decreases RUNES - j,
    {
        let code: u32 = read_u32(data, at + 4 * j);
        let ghost rest = element_text(data@, at as int, j as int);
        if code == 0 {
            assert(rest =~= Seq::<char>::empty());
            assert(s@ + rest =~= s@);
            return s;
        }
        if let Some(c) = char::from_u32(code) {
            let ghost before = s@;
            s.push(c);
            assert(rest == seq![c] + element_text(data@, at as int, j + 1));
            assert(s@ + element_text(data@, at as int, j + 1) =~= before + rest);
        }
        j = j + 1;
    }
    assert(s@ + element_text(data@, at as int, j as int) =~= s@);
    s
}

/// The texts of a column of `n` rows. Reading undoes writing: a column that holds texts of at most
/// sixteen characters gives them back, the zeros behind a shorter one left out.
pub fn read_strings(column: &Column, n: usize) -> (r: Result<Vec<String>, String>)
    requires
        n * 64 <= u64::MAX,
    ensures
        match (r, read_texts(column.contents(), n as nat)) {
            (Ok(a), Ok(b)) => views(a@) == b && a@.len() == n,
            (Err(a), Err(b)) => a@ == b,
            _ => false,
        },
        forall|texts: Seq<Seq<char>>|
            is_text_type(plain_type(column.dtype@)) && all_fit(texts) && texts.len() == n
                && column.data@ == #[trigger] column_of_texts(texts) ==> (r matches Ok(a) && views(
                a@,
            ) == texts),
{
    proof {
        assert forall|texts: Seq<Seq<char>>|
            is_text_type(plain_type(column.dtype@)) && all_fit(texts) && texts.len() == n
                && column.data@ == #[trigger] column_of_texts(texts) implies read_texts(
            column.contents(),
            n as nat,
        ) == Ok::<Seq<Seq<char>>, Seq<char>>(texts) by {
            columns_of_texts_read_back(column.name@, column.dtype@, texts);
        }
    }
    let plain = chars_of(normalize_dtype(column.dtype).as_str());
    let is_text = (plain.len() > 0 && plain[0] == 's') || (plain.len() >= 3 && plain[0] == 'u'
        && plain[1] == '1' && plain[2] == '6');
    if !is_text {
        return Err(
            "column ".to_owned().concat(column.name).concat(" has unexpected string dtype ").concat(
                column.dtype,
            ),
        );
    }
    let len: usize = column.data.len();
    if len as u64 != n as u64 * ELEMENT_BYTES {
        return Err(wrong_size("string column ", column.name, n as u64, ELEMENT_BYTES, len));
    }
    let mut out: Vec<String> = Vec::new();
    let mut i: usize = 0;
    while i < n
        invariant
            i <= n,
            len == column.data@.len() == n * 64,
            views(out@) == Seq::new(
                i as nat,
                |k: int| element_text(column.data@, k * ELEMENT_BYTES, 0),
            ),
        decreases n - i,
    {
        let at: usize = i * 64;
        let ghost before = views(out@);
        let text = read_element(column.data, at);
        let ghost t = text@;
        out.push(text);
        assert(views(out@) =~= before.push(t));
        i = i + 1;
    }
    Ok(out)
}

// ----- result sets -----

/// Whether the lists of a result set have one length.
pub open spec fn consistent(ds: NumpyDataset) -> bool {
    ds.column_names@.len() == ds.column_types@.len() && ds.column_names@.len()
        == ds.column_data@.len()
}

/// What is said of a result set whose lists have not one length.
pub open spec fn consistency_error(ds: NumpyDataset) -> Seq<char> {
    "inconsistent NumpyDataset: "@ + digits(ds.column_names@.len()) + " names, "@ + digits(
        ds.column_types@.len(),
    ) + " types, "@ + digits(ds.column_data@.len()) + " data columns"@
}

/// Checks that the lists of a result set have one length.
pub fn check_columns_consistent(ds: &NumpyDataset) -> (r: Result<(), String>)
    ensures
        r is Ok <==> consistent(*ds),
        r matches Err(e) ==> e@ == consistency_error(*ds),
{
    if ds.column_names.len() != ds.column_types.len() || ds.column_names.len()
        != ds.column_data.len() {
        Err(
            "inconsistent NumpyDataset: ".to_owned().concat(
                nat_text(ds.column_names.len() as u64).as_str(),
            ).concat(" names, ").concat(nat_text(ds.column_types.len() as u64).as_str()).concat(
                " types, ",
            ).concat(nat_text(ds.column_data.len() as u64).as_str()).concat(" data columns"),
        )
    } else {
        Ok(())
    }
}

/// The contents of column `i`.
pub open spec fn column_at(ds: NumpyDataset, i: int) -> ColumnView {
    ColumnView {
        name: ds.column_names@[i]@,
        dtype: ds.column_types@[i]@,
        data: ds.column_data@[i]@,
    }
}

/// The place of the first column from `i` on with this name.
pub open spec fn column_from(ds: NumpyDataset, name: Seq<char>, i: int) -> Option<int>
    decreases ds.column_names@.len() - i,
{
    if i < 0 || i >= ds.column_names@.len() {
        None
    } else if ds.column_names@[i]@ == name {
        Some(i)
    } else {
        column_from(ds, name, i + 1)
    }
}

/// The first column with this name.
pub open spec fn column_named(ds: NumpyDataset, name: Seq<char>) -> Option<ColumnView> {
    match column_from(ds, name, 0) {
        Some(i) => Some(column_at(ds, i)),
        None => None,
    }
}

fn find_column<'a>(ds: &'a NumpyDataset, name: &str) -> (r: Option<Column<'a>>)
    requires
        consistent(*ds),
    ensures
        match (r, column_named(*ds, name@)) {
            (Some(c), Some(v)) => c.contents() == v,
            (None, None) => true,
            _ => false,
        },
{
    let mut i: usize = 0;
    while i < ds.column_names.len()
        invariant
            i <= ds.column_names@.len(),
            consistent(*ds),
            column_from(*ds, name@, 0) == column_from(*ds, name@, i as int),
        decreases ds.column_names@.len() - i,
    {
        if same_text(ds.column_names[i].as_str(), name) {
            return Some(
                Column {
                    name: ds.column_names[i].as_str(),
                    dtype: ds.column_types[i].as_str(),
                    data: ds.column_data[i].as_slice(),
                },
            );
        }
        i = i + 1;
    }
    None
}

/// What is said of a column that is missing.
pub open spec fn missing_error(name: Seq<char>) -> Seq<char> {
    "missing "@ + name + " column"@
}

/// The numbers of the column with this name.
pub open spec fn numbers_in(ds: NumpyDataset, name: Seq<char>) -> Result<Seq<Number>, Seq<char>> {
    match column_named(ds, name) {
        None => Err(missing_error(name)),
        Some(column) => read_numbers(column, ds.length as nat),
    }
}

/// The whole numbers of the column with this name.
pub open spec fn wholes_in(ds: NumpyDataset, name: Seq<char>) -> Result<Seq<int>, Seq<char>> {
    match column_named(ds, name) {
        None => Err(missing_error(name)),
        Some(column) => read_wholes(column, ds.length as nat),
    }
}

/// The whole numbers of the column with this name, if there is one.
pub open spec fn wholes_if_any(ds: NumpyDataset, name: Seq<char>) -> Result<
    Option<Seq<int>>,
    Seq<char>,
> {
    match column_named(ds, name) {
        None => Ok(None),
        Some(column) => match read_wholes(column, ds.length as nat) {
            Ok(v) => Ok(Some(v)),
            Err(e) => Err(e),
        },
    }
}

/// The texts of the column with this name, if there is one.
pub open spec fn texts_if_any(ds: NumpyDataset, name: Seq<char>) -> Result<
    Option<Seq<Seq<char>>>,
    Seq<char>,
> {
    match column_named(ds, name) {
        None => Ok(None),
        Some(column) => match read_texts(column, ds.length as nat) {
            Ok(v) => Ok(Some(v)),
            Err(e) => Err(e),
        },
    }
}

fn read_named(ds: &NumpyDataset, name: &str) -> (r: Result<Vec<Number>, String>)
    requires
        consistent(*ds),
        ds.length >= 0,
    ensures
        match (r, numbers_in(*ds, name@)) {
            (Ok(a), Ok(b)) => a@ == b,
            (Err(a), Err(b)) => a@ == b,
            _ => false,
        },
{
    match find_column(ds, name) {
        None => Err("missing ".to_owned().concat(name).concat(" column")),
        Some(column) => read_f64(&column, ds.length as usize),
    }
}

fn read_named_wholes(ds: &NumpyDataset, name: &str) -> (r: Result<Vec<i64>, String>)
    requires
        consistent(*ds),
        ds.length >= 0,
    ensures
        match (r, wholes_in(*ds, name@)) {
            (Ok(a), Ok(b)) => as_ints(a@) == b && b.len() == ds.length,
            (Err(a), Err(b)) => a@ == b,
            _ => false,
        },
{
    match find_column(ds, name) {
        None => Err("missing ".to_owned().concat(name).concat(" column")),
        Some(column) => read_i64(&column, ds.length as usize),
    }
}

/// The values of machine integers, if there are any.
pub open spec fn ints_view(v: Option<Vec<i64>>) -> Option<Seq<int>> {
    match v {
        Some(x) => Some(as_ints(x@)),
        None => None,
    }
}

fn read_wholes_if_any(ds: &NumpyDataset, name: &str) -> (r: Result<Option<Vec<i64>>, String>)
    requires
        consistent(*ds),
        ds.length >= 0,
    ensures
        match (r, wholes_if_any(*ds, name@)) {
            (Ok(a), Ok(b)) => ints_view(a) == b && (a matches Some(v) ==> v@.len() == ds.length),
            (Err(a), Err(b)) => a@ == b,
            _ => false,
        },
{
    match find_column(ds, name) {
        None => Ok(None),
        Some(column) => match read_i64(&column, ds.length as usize) {
            Ok(v) => Ok(Some(v)),
            Err(e) => Err(e),
        },
    }
}

fn read_texts_if_any(ds: &NumpyDataset, name: &str) -> (r: Result<Option<Vec<String>>, String>)
    requires
        consistent(*ds),
        ds.length >= 0,
    ensures
        match (r, texts_if_any(*ds, name@)) {
            (Ok(Some(a)), Ok(Some(b))) => views(a@) == b && a@.len() == ds.length,
            (Ok(None), Ok(None)) => true,
            (Err(a), Err(b)) => a@ == b,
            _ => false,
        },
{
    match find_column(ds, name) {
        None => Ok(None),
        Some(column) => match read_strings(&column, ds.length as usize) {
            Ok(v) => Ok(Some(v)),
            Err(e) => Err(e),
        },
    }
}

// ----- timestamps -----

/// The nanoseconds of a second.
pub const NANOS_PER_SEC: i64 = 1_000_000_000;

/// Whether a number fits in 64 bits with a sign.
pub open spec fn fits_64(n: int) -> bool {
    i64::MIN <= n <= i64::MAX
}

/// The 64 bits of a signed number, read without a sign.
pub open spec fn bits_of(n: int) -> u64 {
    if n < 0 {
        (n + 0x1_0000_0000_0000_0000) as u64
    } else {
        n as u64
    }
}

/// The nanoseconds of Unix time at a second and a remainder of nanoseconds; `None` where they do
/// not fit.
pub open spec fn stamp(epoch: int, frac: int) -> Option<u64> {
    if fits_64(epoch * NANOS_PER_SEC) && fits_64(epoch * NANOS_PER_SEC + frac) {
        Some(bits_of(epoch * NANOS_PER_SEC + frac))
    } else {
        None
    }
}

/// The nanoseconds of Unix time at a second and a remainder of nanoseconds.
pub fn to_stamp(epoch: i64, frac: i64) -> (r: Option<u64>)
    ensures
        r == stamp(epoch as int, frac as int),
{
    let whole: i128 = epoch as i128 * 1_000_000_000;
    assert(whole == epoch * NANOS_PER_SEC);
    let sum: i128 = whole + frac as i128;
    let low: i128 = i64::MIN as i128;
    let high: i128 = i64::MAX as i128;
    if low <= whole && whole <= high && low <= sum && sum <= high {
        if sum < 0 {
            Some((sum + 0x1_0000_0000_0000_0000) as u64)
        } else {
            Some(sum as u64)
        }
    } else {
        None
    }
}

/// The remainder of nanoseconds of row `i`; zero without a column of them.
pub open spec fn frac_at(nanos: Option<Seq<int>>, i: int) -> int {
    match nanos {
        Some(v) => v[i],
        None => 0,
    }
}

/// Whether every row's time fits.
pub open spec fn stamps_fit(epochs: Seq<int>, nanos: Option<Seq<int>>) -> bool {
    forall|i: int|
        0 <= i < epochs.len() ==> stamp(#[trigger] epochs[i], frac_at(nanos, i)) is Some
}

/// The times of the rows.
pub open spec fn stamps(epochs: Seq<int>, nanos: Option<Seq<int>>) -> Seq<u64> {
    Seq::new(epochs.len(), |i: int| stamp(epochs[i], frac_at(nanos, i))->0)
}

fn stamp_rows(epochs: &Vec<i64>, nanos: &Option<Vec<i64>>) -> (r: Option<Vec<u64>>)
    requires
        nanos matches Some(v) ==> v@.len() == epochs@.len(),
    ensures
        match r {
            Some(v) => stamps_fit(as_ints(epochs@), ints_view(*nanos)) && v@ == stamps(
                as_ints(epochs@),
                ints_view(*nanos),
            ),
            None => !stamps_fit(as_ints(epochs@), ints_view(*nanos)),
        },
{
    let ghost e = as_ints(epochs@);
    let ghost f = ints_view(*nanos);
    let mut out: Vec<u64> = Vec::new();
    let mut i: usize = 0;
    while i < epochs.len()
        invariant
            i <= epochs@.len(),
            e == as_ints(epochs@),
            f == ints_view(*nanos),
            nanos matches Some(v) ==> v@.len() == epochs@.len(),
            out@.len() == i,
            forall|k: int|
                0 <= k < i ==> stamp(#[trigger] e[k], frac_at(f, k)) == Some(out@[k]),
        decreases epochs@.len() - i,
    {
        let frac: i64 = match nanos {
            Some(v) => v[i],
            None => 0,
        };
        assert(e[i as int] == epochs@[i as int]);
        assert(frac_at(f, i as int) == frac);
        match to_stamp(epochs[i], frac) {
            Some(t) => out.push(t),
            None => return None,
        }
        i = i + 1;
    }
    assert(out@ =~= stamps(e, f));
    Some(out)
}

/// Whether each time, moved on by `delta`, still fits in 64 bits.
pub open spec fn shifts_fit(times: Seq<u64>, delta: u64) -> bool {
    forall|i: int| 0 <= i < times.len() ==> #[trigger] times[i] + delta <= u64::MAX
}

/// The times, moved on by `delta`.
pub open spec fn shifted(times: Seq<u64>, delta: u64) -> Seq<u64> {
    times.map_values(|t: u64| (t + delta) as u64)
}

fn shift_rows(times: &Vec<u64>, delta: u64) -> (r: Option<Vec<u64>>)
    ensures
        match r {
            Some(v) => shifts_fit(times@, delta) && v@ == shifted(times@, delta),
            None => !shifts_fit(times@, delta),
        },
{
    let mut out: Vec<u64> = Vec::new();
    let mut i: usize = 0;
    while i < times.len()
        invariant
            i <= times@.len(),
            out@.len() == i,
            forall|k: int| 0 <= k < i ==> #[trigger] times@[k] + delta <= u64::MAX,
            forall|k: int| 0 <= k < i ==> #[trigger] out@[k] == times@[k] + delta,
        decreases times@.len() - i,
    {
        if times[i] > u64::MAX - delta {
            assert(times@[i as int] + delta > u64::MAX);
            return None;
        }
        out.push(times[i] + delta);
        i = i + 1;
    }
    assert(out@ =~= shifted(times@, delta));
    Some(out)
}

// ----- bars -----

/// Columns of bars. A bar's event is its open, and it is known at its close.
#[derive(Clone, Debug)]
pub struct RawBars {
    pub ts_event: Vec<u64>,
    pub ts_init: Vec<u64>,
    pub open: Vec<Number>,
    pub high: Vec<Number>,
    pub low: Vec<Number>,
    pub close: Vec<Number>,
    pub volume: Vec<Number>,
}

/// The contents of [`RawBars`].
#[verifier::ext_equal]
pub struct BarsView {
    pub ts_event: Seq<u64>,
    pub ts_init: Seq<u64>,
    pub open: Seq<Number>,
    pub high: Seq<Number>,
    pub low: Seq<Number>,
    pub close: Seq<Number>,
    pub volume: Seq<Number>,
}

impl View for RawBars {
    type V = BarsView;

    open spec fn view(&self) -> BarsView {
        BarsView {
            ts_event: self.ts_event@,
            ts_init: self.ts_init@,
            open: self.open@,
            high: self.high@,
            low: self.low@,
            close: self.close@,
            volume: self.volume@,
        }
    }
}

/// No bars.
pub open spec fn no_bars() -> BarsView {
    BarsView {
        ts_event: Seq::empty(),
        ts_init: Seq::empty(),
        open: Seq::empty(),
        high: Seq::empty(),
        low: Seq::empty(),
        close: Seq::empty(),
        volume: Seq::empty(),
    }
}

impl Default for RawBars {
    fn default() -> (r: RawBars)
        ensures
            r@ == no_bars(),
    {
        RawBars {
            ts_event: Vec::new(),
            ts_init: Vec::new(),
            open: Vec::new(),
            high: Vec::new(),
            low: Vec::new(),
            close: Vec::new(),
            volume: Vec::new(),
        }
    }
}

impl RawBars {
    /// The number of bars.
    pub fn len(&self) -> (r: usize)
        ensures
            r == self.ts_event@.len(),
    {
        self.ts_event.len()
    }

    /// Whether there are no bars.
    pub fn is_empty(&self) -> (r: bool)
        ensures
            r == (self.ts_event@.len() == 0),
    {
        self.ts_event.len() == 0
    }
}

/// What the columns of a result set come to as bars: the first wrong column is the error, in the
/// order time, open, high, low, close, volume, nanoseconds. `None` where a time does not fit.
pub open spec fn bars_in(ds: NumpyDataset, delta: u64) -> Result<Option<BarsView>, Seq<char>> {
    match (
        wholes_in(ds, "Epoch"@),
        numbers_in(ds, "Open"@),
        numbers_in(ds, "High"@),
        numbers_in(ds, "Low"@),
        numbers_in(ds, "Close"@),
        numbers_in(ds, "Volume"@),
        wholes_if_any(ds, "Nanoseconds"@),
    ) {
        (Err(e), _, _, _, _, _, _) => Err(e),
        (_, Err(e), _, _, _, _, _) => Err(e),
        (_, _, Err(e), _, _, _, _) => Err(e),
        (_, _, _, Err(e), _, _, _) => Err(e),
        (_, _, _, _, Err(e), _, _) => Err(e),
        (_, _, _, _, _, Err(e), _) => Err(e),
        (_, _, _, _, _, _, Err(e)) => Err(e),
        (Ok(epoch), Ok(open), Ok(high), Ok(low), Ok(close), Ok(volume), Ok(nanos)) => {
            let ts_event = stamps(epoch, nanos);
            if !stamps_fit(epoch, nanos) || !shifts_fit(ts_event, delta) {
                Ok(None)
            } else {
                Ok(
                    Some(
                        BarsView {
                            ts_event,
                            ts_init: shifted(ts_event, delta),
                            open,
                            high,
                            low,
                            close,
                            volume,
                        },
                    ),
                )
            }
        },
    }
}

/// Whether a result has no rows.
pub open spec fn has_no_rows(dataset: NumpyMultiDataset) -> bool {
    dataset.data matches Some(ds) ==> ds.length == 0
}

/// What a result comes to as bars, whose close is `delta` after their open.
pub open spec fn bars_of(dataset: NumpyMultiDataset, delta: u64) -> Result<
    Option<BarsView>,
    Seq<char>,
> {
    if has_no_rows(dataset) {
        Ok(Some(no_bars()))
    } else if !consistent(dataset.data->0) {
        Err(consistency_error(dataset.data->0))
    } else {
        bars_in(dataset.data->0, delta)
    }
}

impl NumpyMultiDataset {
    /// Whether the number of rows is not negative.
    pub open spec fn valid(self) -> bool {
        self.data matches Some(ds) ==> ds.length >= 0
    }

    /// Whether the number of rows is not negative.
    pub fn has_valid_length(&self) -> (r: bool)
        ensures
            r == self.valid(),
    {
        match &self.data {
            Some(ds) => ds.length >= 0,
            None => true,
        }
    }
}

/// Decodes bars; `None` where a time does not fit.
pub fn try_decode_raw_bars(dataset: &NumpyMultiDataset, ts_init_delta_ns: u64) -> (r: Result<
    Option<RawBars>,
    String,
>)
    requires
        dataset.valid(),
    ensures
        match (r, bars_of(*dataset, ts_init_delta_ns)) {
            (Ok(Some(a)), Ok(Some(b))) => a@ == b,
            (Ok(None), Ok(None)) => true,
            (Err(a), Err(b)) => a@ == b,
            _ => false,
        },
{
    let ds = match &dataset.data {
        Some(ds) => ds,
        None => return Ok(Some(RawBars::default())),
    };
    if ds.length == 0 {
        return Ok(Some(RawBars::default()));
    }
    if let Err(e) = check_columns_consistent(ds) {
        return Err(e);
    }
    let epoch = match read_named_wholes(ds, "Epoch") {
        Ok(v) => v,
        Err(e) => return Err(e),
    };
    let open = match read_named(ds, "Open") {
        Ok(v) => v,
        Err(e) => return Err(e),
    };
    let high = match read_named(ds, "High") {
        Ok(v) => v,
        Err(e) => return Err(e),
    };
    let low = match read_named(ds, "Low") {
        Ok(v) => v,
        Err(e) => return Err(e),
    };
    let close = match read_named(ds, "Close") {
        Ok(v) => v,
        Err(e) => return Err(e),
    };
    let volume = match read_named(ds, "Volume") {
        Ok(v) => v,
        Err(e) => return Err(e),
    };
    let nanos = match read_wholes_if_any(ds, "Nanoseconds") {
        Ok(v) => v,
        Err(e) => return Err(e),
    };
    let ts_event = match stamp_rows(&epoch, &nanos) {
        Some(v) => v,
        None => return Ok(None),
    };
    let ts_init = match shift_rows(&ts_event, ts_init_delta_ns) {
        Some(v) => v,
        None => return Ok(None),
    };
    Ok(Some(RawBars { ts_event, ts_init, open, high, low, close, volume }))
}

/// Decodes bars, whose close is `ts_init_delta_ns` after their open. Every time has to fit in 64
/// bits; [`try_decode_raw_bars`] says whether that is so.
pub fn decode_raw_bars(dataset: &NumpyMultiDataset, ts_init_delta_ns: u64) -> (r: Result<
    RawBars,
    String,
>)
    requires
        dataset.valid(),
        !(bars_of(*dataset, ts_init_delta_ns) matches Ok(None)),
    ensures
        match (r, bars_of(*dataset, ts_init_delta_ns)) {
            (Ok(a), Ok(Some(b))) => a@ == b,
            (Err(a), Err(b)) => a@ == b,
            _ => false,
        },
{
    match try_decode_raw_bars(dataset, ts_init_delta_ns) {
        Ok(bars) => Ok(bars.unwrap()),
        Err(e) => Err(e),
    }
}

// ----- trades -----

/// Columns of trades.
#[derive(Clone, Debug)]
pub struct RawTrades {
    pub ts_event: Vec<u64>,
    pub price: Vec<Number>,
    pub size: Vec<Number>,
    pub trade_id: Vec<String>,
}

/// The contents of [`RawTrades`].
#[verifier::ext_equal]
pub struct TradesView {
    pub ts_event: Seq<u64>,
    pub price: Seq<Number>,
    pub size: Seq<Number>,
    pub trade_id: Seq<Seq<char>>,
}

impl View for RawTrades {
    type V = TradesView;

    open spec fn view(&self) -> TradesView {
        TradesView {
            ts_event: self.ts_event@,
            price: self.price@,
            size: self.size@,
            trade_id: views(self.trade_id@),
        }
    }
}

/// No trades.
pub open spec fn no_trades() -> TradesView {
    TradesView {
        ts_event: Seq::empty(),
        price: Seq::empty(),
        size: Seq::empty(),
        trade_id: Seq::empty(),
    }
}

impl Default for RawTrades {
    fn default() -> (r: RawTrades)
        ensures
            r@ == no_trades(),
    {
        let r = RawTrades {
            ts_event: Vec::new(),
            price: Vec::new(),
            size: Vec::new(),
            trade_id: Vec::new(),
        };
        assert(views(r.trade_id@) =~= Seq::<Seq<char>>::empty());
        r
    }
}

impl RawTrades {
    /// The number of trades.
    pub fn len(&self) -> (r: usize)
        ensures
            r == self.ts_event@.len(),
    {
        self.ts_event.len()
    }

    /// Whether there are no trades.
    pub fn is_empty(&self) -> (r: bool)
        ensures
            r == (self.ts_event@.len() == 0),
    {
        self.ts_event.len() == 0
    }
}

/// The id that is given to a trade without one: its time and its row.
pub open spec fn made_up_id(ts_event: u64, row: nat) -> Seq<char> {
    digits(ts_event as nat) + "-"@ + digits(row)
}

/// The id that is given to a trade without one.
pub fn synth_trade_id(ts_event: u64, seq: usize) -> (r: String)
    ensures
        r@ == made_up_id(ts_event, seq as nat),
{
    nat_text(ts_event).concat("-").concat(nat_text(seq as u64).as_str())
}

/// The ids of trades: those of the column, else made-up ones.
pub open spec fn trade_ids(ids: Option<Seq<Seq<char>>>, times: Seq<u64>) -> Seq<Seq<char>> {
    match ids {
        Some(v) => v,
        None => Seq::new(times.len(), |i: int| made_up_id(times[i], i as nat)),
    }
}

/// What the columns of a result set come to as trades: the first wrong column is the error, in
/// the order time, nanoseconds, price, size, id. `None` where a time does not fit.
pub open spec fn trades_in(ds: NumpyDataset) -> Result<Option<TradesView>, Seq<char>> {
    match (
        wholes_in(ds, "Epoch"@),
        wholes_if_any(ds, "Nanoseconds"@),
        numbers_in(ds, "Price"@),
        numbers_in(ds, "Size"@),
        texts_if_any(ds, "TradeID"@),
    ) {
        (Err(e), _, _, _, _) => Err(e),
        (_, Err(e), _, _, _) => Err(e),
        (_, _, Err(e), _, _) => Err(e),
        (_, _, _, Err(e), _) => Err(e),
        (_, _, _, _, Err(e)) => Err(e),
        (Ok(epoch), Ok(nanos), Ok(price), Ok(size), Ok(ids)) => {
            let ts_event = stamps(epoch, nanos);
            if !stamps_fit(epoch, nanos) {
                Ok(None)
            } else {
                Ok(
                    Some(
                        TradesView { ts_event, price, size, trade_id: trade_ids(ids, ts_event) },
                    ),
                )
            }
        },
    }
}

/// What a result comes to as trades.
pub open spec fn trades_of(dataset: NumpyMultiDataset) -> Result<Option<TradesView>, Seq<char>> {
    if has_no_rows(dataset) {
        Ok(Some(no_trades()))
    } else if !consistent(dataset.data->0) {
        Err(consistency_error(dataset.data->0))
    } else {
        trades_in(dataset.data->0)
    }
}

fn make_up_ids(times: &Vec<u64>) -> (r: Vec<String>)
    ensures
        views(r@) == trade_ids(None, times@),
{
    let mut out: Vec<String> = Vec::new();
    let mut i: usize = 0;
    while i < times.len()
        invariant
            i <= times@.len(),
            out@.len() == i,
            forall|k: int|
                0 <= k < i ==> (#[trigger] out@[k])@ == made_up_id(times@[k], k as nat),
        decreases times@.len() - i,
    {
        out.push(synth_trade_id(times[i], i));
        i = i + 1;
    }
    assert(views(out@) =~= trade_ids(None, times@));
    out
}

/// Decodes trades; `None` where a time does not fit.
pub fn try_decode_raw_trades(dataset: &NumpyMultiDataset) -> (r: Result<Option<RawTrades>, String>)
    requires
        dataset.valid(),
    ensures
        match (r, trades_of(*dataset)) {
            (Ok(Some(a)), Ok(Some(b))) => a@ == b,
            (Ok(None), Ok(None)) => true,
            (Err(a), Err(b)) => a@ == b,
            _ => false,
        },
{
    let ds = match &dataset.data {
        Some(ds) => ds,
        None => return Ok(Some(RawTrades::default())),
    };
    if ds.length == 0 {
        return Ok(Some(RawTrades::default()));
    }
    if let Err(e) = check_columns_consistent(ds) {
        return Err(e);
    }
    let epoch = match read_named_wholes(ds, "Epoch") {
        Ok(v) => v,
        Err(e) => return Err(e),
    };
    let nanos = match read_wholes_if_any(ds, "Nanoseconds") {
        Ok(v) => v,
        Err(e) => return Err(e),
    };
    let price = match read_named(ds, "Price") {
        Ok(v) => v,
        Err(e) => return Err(e),
    };
    let size = match read_named(ds, "Size") {
        Ok(v) => v,
        Err(e) => return Err(e),
    };
    let ids = match read_texts_if_any(ds, "TradeID") {
        Ok(v) => v,
        Err(e) => return Err(e),
    };
    let ts_event = match stamp_rows(&epoch, &nanos) {
        Some(v) => v,
        None => return Ok(None),
    };
    let trade_id = match ids {
        Some(v) => v,
        None => make_up_ids(&ts_event),
    };
    Ok(Some(RawTrades { ts_event, price, size, trade_id }))
}

/// Decodes trades. Every time has to fit in 64 bits; [`try_decode_raw_trades`] says whether that is
/// so.
pub fn decode_raw_trades(dataset: &NumpyMultiDataset) -> (r: Result<RawTrades, String>)
    requires
        dataset.valid(),
        !(trades_of(*dataset) matches Ok(None)),
    ensures
        match (r, trades_of(*dataset)) {
            (Ok(a), Ok(Some(b))) => a@ == b,
            (Err(a), Err(b)) => a@ == b,
            _ => false,
        },
{
    match try_decode_raw_trades(dataset) {
        Ok(trades) => Ok(trades.unwrap()),
        Err(e) => Err(e),
    }
}

// ----- quotes -----

/// Columns of quotes.
#[derive(Clone, Debug)]
pub struct RawQuotes {
    pub ts_event: Vec<u64>,
    pub bid_price: Vec<Number>,
    pub ask_price: Vec<Number>,
    pub bid_size: Vec<Number>,
    pub ask_size: Vec<Number>,
}

/// The contents of [`RawQuotes`].
#[verifier::ext_equal]
pub struct QuotesView {
    pub ts_event: Seq<u64>,
    pub bid_price: Seq<Number>,
    pub ask_price: Seq<Number>,
    pub bid_size: Seq<Number>,
    pub ask_size: Seq<Number>,
}

impl View for RawQuotes {
    type V = QuotesView;

    open spec fn view(&self) -> QuotesView {
        QuotesView {
            ts_event: self.ts_event@,
            bid_price: self.bid_price@,
            ask_price: self.ask_price@,
            bid_size: self.bid_size@,
            ask_size: self.ask_size@,
        }
    }
}

/// No quotes.
pub open spec fn no_quotes() -> QuotesView {
    QuotesView {
        ts_event: Seq::empty(),
        bid_price: Seq::empty(),
        ask_price: Seq::empty(),
        bid_size: Seq::empty(),
        ask_size: Seq::empty(),
    }
}

impl Default for RawQuotes {
    fn default() -> (r: RawQuotes)
        ensures
            r@ == no_quotes(),
    {
        RawQuotes {
            ts_event: Vec::new(),
            bid_price: Vec::new(),
            ask_price: Vec::new(),
            bid_size: Vec::new(),
            ask_size: Vec::new(),
        }
    }
}

impl RawQuotes {
    /// The number of quotes.
    pub fn len(&self) -> (r: usize)
        ensures
            r == self.ts_event@.len(),
    {
        self.ts_event.len()
    }

    /// Whether there are no quotes.
    pub fn is_empty(&self) -> (r: bool)
        ensures
            r == (self.ts_event@.len() == 0),
    {
        self.ts_event.len() == 0
    }
}

/// What the columns of a result set come to as quotes: the first wrong column is the error, in
/// the order time, nanoseconds, bid price, ask price, bid size, ask size. `None` where a time does
/// not fit.
pub open spec fn quotes_in(ds: NumpyDataset) -> Result<Option<QuotesView>, Seq<char>> {
    match (
        wholes_in(ds, "Epoch"@),
        wholes_if_any(ds, "Nanoseconds"@),
        numbers_in(ds, "BidPrice"@),
        numbers_in(ds, "AskPrice"@),
        numbers_in(ds, "BidSize"@),
        numbers_in(ds, "AskSize"@),
    ) {
        (Err(e), _, _, _, _, _) => Err(e),
        (_, Err(e), _, _, _, _) => Err(e),
        (_, _, Err(e), _, _, _) => Err(e),
        (_, _, _, Err(e), _, _) => Err(e),
        (_, _, _, _, Err(e), _) => Err(e),
        (_, _, _, _, _, Err(e)) => Err(e),
        (Ok(epoch), Ok(nanos), Ok(bid_price), Ok(ask_price), Ok(bid_size), Ok(ask_size)) => {
            if !stamps_fit(epoch, nanos) {
                Ok(None)
            } else {
                Ok(
                    Some(
                        QuotesView {
                            ts_event: stamps(epoch, nanos),
                            bid_price,
                            ask_price,
                            bid_size,
                            ask_size,
                        },
                    ),
                )
            }
        },
    }
}

/// What a result comes to as quotes.
pub open spec fn quotes_of(dataset: NumpyMultiDataset) -> Result<Option<QuotesView>, Seq<char>> {
    if has_no_rows(dataset) {
        Ok(Some(no_quotes()))
    } else if !consistent(dataset.data->0) {
        Err(consistency_error(dataset.data->0))
    } else {
        quotes_in(dataset.data->0)
    }
}

/// Decodes quotes; `None` where a time does not fit.
pub fn try_decode_raw_quotes(dataset: &NumpyMultiDataset) -> (r: Result<Option<RawQuotes>, String>)
    requires
        dataset.valid(),
    ensures
        match (r, quotes_of(*dataset)) {
            (Ok(Some(a)), Ok(Some(b))) => a@ == b,
            (Ok(None), Ok(None)) => true,
            (Err(a), Err(b)) => a@ == b,
            _ => false,
        },
{
    let ds = match &dataset.data {
        Some(ds) => ds,
        None => return Ok(Some(RawQuotes::default())),
    };
    if ds.length == 0 {
        return Ok(Some(RawQuotes::default()));
    }
    if let Err(e) = check_columns_consistent(ds) {
        return Err(e);
    }
    let epoch = match read_named_wholes(ds, "Epoch") {
        Ok(v) => v,
        Err(e) => return Err(e),
    };
    let nanos = match read_wholes_if_any(ds, "Nanoseconds") {
        Ok(v) => v,
        Err(e) => return Err(e),
    };
    let bid_price = match read_named(ds, "BidPrice") {
        Ok(v) => v,
        Err(e) => return Err(e),
    };
    let ask_price = match read_named(ds, "AskPrice") {
        Ok(v) => v,
        Err(e) => return Err(e),
    };
    let bid_size = match read_named(ds, "BidSize") {
        Ok(v) => v,
        Err(e) => return Err(e),
    };
    let ask_size = match read_named(ds, "AskSize") {
        Ok(v) => v,
        Err(e) => return Err(e),
    };
    match stamp_rows(&epoch, &nanos) {
        Some(ts_event) => Ok(
            Some(RawQuotes { ts_event, bid_price, ask_price, bid_size, ask_size }),
        ),
        None => Ok(None),
    }
}

/// Decodes quotes. Every time has to fit in 64 bits; [`try_decode_raw_quotes`] says whether that is
/// so.
pub fn decode_raw_quotes(dataset: &NumpyMultiDataset) -> (r: Result<RawQuotes, String>)
    requires
        dataset.valid(),
        !(quotes_of(*dataset) matches Ok(None)),
    ensures
        match (r, quotes_of(*dataset)) {
            (Ok(a), Ok(Some(b))) => a@ == b,
            (Err(a), Err(b)) => a@ == b,
            _ => false,
        },
{
    match try_decode_raw_quotes(dataset) {
        Ok(quotes) => Ok(quotes.unwrap()),
        Err(e) => Err(e),
    }
}

// ----- laws -----

/// All columns of decoded bars have as many rows as the result says, and each bar is known
/// `delta` after its event.
pub proof fn bars_are_rectangular(dataset: NumpyMultiDataset, delta: u64, bars: BarsView)
    requires
        dataset.valid(),
        !has_no_rows(dataset),
        bars_of(dataset, delta) == Ok::<Option<BarsView>, Seq<char>>(Some(bars)),
    ensures
        ({
            let n = dataset.data->0.length as nat;
            &&& bars.ts_event.len() == n && bars.ts_init.len() == n
            &&& bars.open.len() == n && bars.high.len() == n && bars.low.len() == n
            &&& bars.close.len() == n && bars.volume.len() == n
        }),
        forall|i: int|
            0 <= i < bars.ts_event.len() ==> #[trigger] bars.ts_init[i] == bars.ts_event[i] + delta,
{
}

/// All columns of decoded trades have as many rows as the result says.
pub proof fn trades_are_rectangular(dataset: NumpyMultiDataset, trades: TradesView)
    requires
        dataset.valid(),
        !has_no_rows(dataset),
        trades_of(dataset) == Ok::<Option<TradesView>, Seq<char>>(Some(trades)),
    ensures
        ({
            let n = dataset.data->0.length as nat;
            &&& trades.ts_event.len() == n && trades.price.len() == n
            &&& trades.size.len() == n && trades.trade_id.len() == n
        }),
{
}

/// All columns of decoded quotes have as many rows as the result says.
pub proof fn quotes_are_rectangular(dataset: NumpyMultiDataset, quotes: QuotesView)
    requires
        dataset.valid(),
        !has_no_rows(dataset),
        quotes_of(dataset) == Ok::<Option<QuotesView>, Seq<char>>(Some(quotes)),
    ensures
        ({
            let n = dataset.data->0.length as nat;
            &&& quotes.ts_event.len() == n && quotes.bid_price.len() == n
            &&& quotes.ask_price.len() == n && quotes.bid_size.len() == n
            &&& quotes.ask_size.len() == n
        }),
{
}

/// The bytes of `n`, the least significant first.
pub open spec fn bytes_of(n: nat, width: nat) -> Seq<u8>
    decreases width,
{
    if width == 0 {
        Seq::empty()
    } else {
        seq![(n % 256) as u8] + bytes_of(n / 256, (width - 1) as nat)
    }
}

/// The parts, one behind the other.
pub open spec fn joined(parts: Seq<Seq<u8>>) -> Seq<u8>
    decreases parts.len(),
{
    if parts.len() == 0 {
        Seq::empty()
    } else {
        joined(parts.drop_last()) + parts.last()
    }
}

/// The 32 bits of a signed number, read without a sign.
pub open spec fn bits_of_32(n: i32) -> nat {
    if n < 0 {
        (n + 0x1_0000_0000) as nat
    } else {
        n as nat
    }
}

/// The same numbers in 64 bits.
pub open spec fn widened(v: Seq<i32>) -> Seq<i64> {
    v.map_values(|x: i32| x as i64)
}

/// The data of a column of 64-bit whole numbers.
pub open spec fn column_of_64(v: Seq<i64>) -> Seq<u8> {
    joined(v.map_values(|x: i64| bytes_of(bits_of(x as int) as nat, 8)))
}

/// The data of a column of 32-bit whole numbers.
pub open spec fn column_of_32(v: Seq<i32>) -> Seq<u8> {
    joined(v.map_values(|x: i32| bytes_of(bits_of_32(x), 4)))
}

/// Whether a number is of a stored type.
pub open spec fn is_stored_as(x: Number, ty: NumberType) -> bool {
    match x {
        Number::F4(_) => ty is F4,
        Number::F8(_) => ty is F8,
        Number::I8(_) => ty is I8,
        Number::I4(_) => ty is I4,
        Number::U8(_) => ty is U8,
        Number::U4(_) => ty is U4,
    }
}

/// Whether all numbers are of a stored type.
pub open spec fn all_stored_as(v: Seq<Number>, ty: NumberType) -> bool {
    forall|i: int| 0 <= i < v.len() ==> is_stored_as(#[trigger] v[i], ty)
}

/// The bits of a number, read as a whole number without a sign.
pub open spec fn stored_bits(x: Number) -> nat {
    match x {
        Number::F4(bits) => bits as nat,
        Number::F8(bits) => bits as nat,
        Number::I8(v) => bits_of(v as int) as nat,
        Number::I4(v) => bits_of_32(v),
        Number::U8(v) => v as nat,
        Number::U4(v) => v as nat,
    }
}

/// The data of a column of numbers of one type.
pub open spec fn column_of_numbers(v: Seq<Number>, ty: NumberType) -> Seq<u8> {
    joined(v.map_values(|x: Number| bytes_of(stored_bits(x), ty.width())))
}

/// The code of character `j` of an element of a text column; zero behind its end.
pub open spec fn rune_code(s: Seq<char>, j: int) -> nat {
    if j < s.len() {
        s[j] as u32 as nat
    } else {
        0
    }
}

/// An element of a text column: the codes of its characters, filled up with zeros.
pub open spec fn element_of(s: Seq<char>) -> Seq<u8> {
    joined(Seq::new(RUNES as nat, |j: int| bytes_of(rune_code(s, j), 4)))
}

/// Whether all texts can stand in a text column: none is longer than an element, and none holds the
/// zero that ends one.
pub open spec fn all_fit(texts: Seq<Seq<char>>) -> bool {
    forall|i: int|
        0 <= i < texts.len() ==> (#[trigger] texts[i]).len() <= RUNES && !texts[i].contains('\0')
}

/// The data of a column of texts.
pub open spec fn column_of_texts(texts: Seq<Seq<char>>) -> Seq<u8> {
    joined(texts.map_values(|s: Seq<char>| element_of(s)))
}

proof fn bytes_have_width(n: nat, width: nat)
    ensures
        bytes_of(n, width).len() == width,
    decreases width,
{
    if width > 0 {
        bytes_have_width(n / 256, (width - 1) as nat);
    }
}

/// Joined parts of one width stand at the multiples of that width.
proof fn parts_stand_in_place(parts: Seq<Seq<u8>>, width: nat)
    requires
        forall|i: int| 0 <= i < parts.len() ==> (#[trigger] parts[i]).len() == width,
    ensures
        joined(parts).len() == parts.len() * width,
        forall|i: int, j: int|
            #![trigger parts[i][j]]
            0 <= i < parts.len() && 0 <= j < width ==> joined(parts)[i * width + j] == parts[i][j],
    decreases parts.len(),
{
    if parts.len() > 0 {
        let shorter = parts.drop_last();
        let n = shorter.len();
        assert forall|i: int| 0 <= i < shorter.len() implies (#[trigger] shorter[i]).len() == width by {
            assert(shorter[i] == parts[i]);
        }
        parts_stand_in_place(shorter, width);
        assert((n + 1) * width == n * width + width) by (nonlinear_arith);
        assert forall|i: int, j: int|
            #![trigger parts[i][j]]
            0 <= i < parts.len() && 0 <= j < width implies joined(parts)[i * width + j]
            == parts[i][j] by {
            assert(0 <= i * width) by (nonlinear_arith)
                requires
                    0 <= i,
            ;
            if i < n {
                assert(i * width + width <= n * width) by (nonlinear_arith)
                    requires
                        i + 1 <= n,
                ;
                assert(shorter[i][j] == parts[i][j]);
            }
        }
    } else {
        assert(0 * width == 0) by (nonlinear_arith);
    }
}

/// Bytes that stand in the data are read as the number that they are the bytes of.
proof fn bytes_read_back(data: Seq<u8>, at: int, n: nat, width: nat)
    requires
        n < pow(256, width),
        forall|j: int| 0 <= j < width ==> data[at + j] == #[trigger] bytes_of(n, width)[j],
    ensures
        little_endian(data, at, width) == n,
    decreases width,
{
    reveal(pow);
    if width > 0 {
        let w = (width - 1) as nat;
        bytes_have_width(n / 256, w);
        assert(bytes_of(n, width)[0] == (n % 256) as u8);
        assert(data[at + 0] == bytes_of(n, width)[0]);
        assert(pow(256, width) == 256 * pow(256, w));
        assert forall|j: int| 0 <= j < w implies data[at + 1 + j] == #[trigger] bytes_of(
            n / 256,
            w,
        )[j] by {
            assert(bytes_of(n, width)[j + 1] == bytes_of(n / 256, w)[j]);
            assert(data[at + (j + 1)] == bytes_of(n, width)[j + 1]);
        }
        bytes_read_back(data, at + 1, n / 256, w);
    }
}

/// A column of 64-bit whole numbers is read back as those numbers.
pub proof fn columns_of_64_read_back(name: Seq<char>, dtype: Seq<char>, v: Seq<i64>)
    requires
        plain_type(dtype) == "i8"@,
    ensures
        read_wholes(ColumnView { name, dtype, data: column_of_64(v) }, v.len()) == Ok::<
            Seq<int>,
            Seq<char>,
        >(as_ints(v)),
{
    let parts = v.map_values(|x: i64| bytes_of(bits_of(x as int) as nat, 8));
    let data = column_of_64(v);
    assert forall|i: int| 0 <= i < parts.len() implies (#[trigger] parts[i]).len() == 8 by {
        bytes_have_width(bits_of(v[i] as int) as nat, 8);
    }
    parts_stand_in_place(parts, 8);
    width_bounds();
    let wholes = Seq::new(v.len(), |i: int| whole_value(NumberType::I8.at(data, i * 8)));
    assert forall|i: int| 0 <= i < v.len() implies wholes[i] == as_ints(v)[i] by {
        let n = bits_of(v[i] as int) as nat;
        assert forall|j: int| 0 <= j < 8 implies data[i * 8 + j] == #[trigger] bytes_of(n, 8)[j] by {
            assert(parts[i][j] == bytes_of(n, 8)[j]);
        }
        bytes_read_back(data, i * 8, n, 8);
    }
    assert(wholes =~= as_ints(v));
    assert(Seq::new(
        v.len(),
        |i: int| whole_value(NumberType::I8.at(data, i * NumberType::I8.width())),
    ) =~= wholes);
}

/// A column of 32-bit whole numbers is read back as those numbers.
pub proof fn columns_of_32_read_back(name: Seq<char>, dtype: Seq<char>, v: Seq<i32>)
    requires
        plain_type(dtype) == "i4"@,
    ensures
        read_wholes(ColumnView { name, dtype, data: column_of_32(v) }, v.len()) == Ok::<
            Seq<int>,
            Seq<char>,
        >(as_ints(widened(v))),
{
    reveal_strlit("i4");
    reveal_strlit("i8");
    assert("i4"@[1] == '4' && "i8"@[1] == '8');
    let parts = v.map_values(|x: i32| bytes_of(bits_of_32(x), 4));
    let data = column_of_32(v);
    assert forall|i: int| 0 <= i < parts.len() implies (#[trigger] parts[i]).len() == 4 by {
        bytes_have_width(bits_of_32(v[i]), 4);
    }
    parts_stand_in_place(parts, 4);
    width_bounds();
    let wholes = Seq::new(v.len(), |i: int| whole_value(NumberType::I4.at(data, i * 4)));
    assert forall|i: int| 0 <= i < v.len() implies wholes[i] == v[i] as int by {
        let n = bits_of_32(v[i]);
        assert forall|j: int| 0 <= j < 4 implies data[i * 4 + j] == #[trigger] bytes_of(n, 4)[j] by {
            assert(parts[i][j] == bytes_of(n, 4)[j]);
        }
        bytes_read_back(data, i * 4, n, 4);
    }
    assert(wholes =~= as_ints(widened(v)));
    assert(Seq::new(
        v.len(),
        |i: int| whole_value(NumberType::I4.at(data, i * NumberType::I4.width())),
    ) =~= wholes);
}

/// A column of numbers is read back as those numbers, whatever their type; of floating-point
/// numbers that is bit by bit.
pub proof fn columns_of_numbers_read_back(
    name: Seq<char>,
    dtype: Seq<char>,
    ty: NumberType,
    v: Seq<Number>,
)
    requires
        number_type(plain_type(dtype)) == Some(ty),
        all_stored_as(v, ty),
    ensures
        read_numbers(ColumnView { name, dtype, data: column_of_numbers(v, ty) }, v.len()) == Ok::<
            Seq<Number>,
            Seq<char>,
        >(v),
{
    let w = ty.width();
    let parts = v.map_values(|x: Number| bytes_of(stored_bits(x), w));
    let data = column_of_numbers(v, ty);
    assert forall|i: int| 0 <= i < parts.len() implies (#[trigger] parts[i]).len() == w by {
        bytes_have_width(stored_bits(v[i]), w);
    }
    parts_stand_in_place(parts, w);
    width_bounds();
    assert forall|i: int| 0 <= i < v.len() implies ty.at(data, i * w) == #[trigger] v[i] by {
        let n = stored_bits(v[i]);
        assert forall|j: int| 0 <= j < w implies data[i * w + j] == #[trigger] bytes_of(n, w)[j] by {
            assert(parts[i][j] == bytes_of(n, w)[j]);
        }
        bytes_read_back(data, i * w, n, w);
    }
    assert(numbers_of(data, ty, v.len()) =~= v);
}

proof fn same_ints(a: Seq<i64>, b: Seq<i64>)
    requires
        as_ints(a) == as_ints(b),
    ensures
        a == b,
{
    assert(a.len() == as_ints(a).len() && b.len() == as_ints(b).len());
    assert forall|i: int| 0 <= i < a.len() implies a[i] == b[i] by {
        assert(as_ints(a)[i] == a[i] as int && as_ints(b)[i] == b[i] as int);
    }
    assert(a =~= b);
}

/// A column is told by its bytes: data with the bytes of each part in their places is the parts,
/// one behind the other.
pub proof fn columns_are_their_bytes(data: Seq<u8>, parts: Seq<Seq<u8>>, width: nat)
    requires
        forall|i: int| 0 <= i < parts.len() ==> (#[trigger] parts[i]).len() == width,
        data.len() == parts.len() * width,
        forall|i: int, j: int|
            #![trigger parts[i][j]]
            0 <= i < parts.len() && 0 <= j < width ==> data[i * width + j] == parts[i][j],
    ensures
        data == joined(parts),
{
    parts_stand_in_place(parts, width);
    assert forall|k: int| 0 <= k < data.len() implies data[k] == joined(parts)[k] by {
        let w = width as int;
        let i = k / w;
        let j = k % w;
        assert(w > 0) by (nonlinear_arith)
            requires
                0 <= k < parts.len() * w,
                w >= 0,
        ;
        assert(k == i * w + j && 0 <= j < w && 0 <= i) by (nonlinear_arith)
            requires
                0 <= k,
                w > 0,
                i == k / w,
                j == k % w,
        ;
        assert(i < parts.len()) by (nonlinear_arith)
            requires
                k == i * w + j,
                0 <= j,
                k < parts.len() * w,
                w > 0,
        ;
        assert(parts[i][j] == data[i * width + j]);
    }
    assert(data =~= joined(parts));
}

/// Byte `j` of a number, from the least significant on, is its digit to the base of 256 at that
/// place.
pub proof fn bytes_are_digits(n: nat, width: nat, j: int)
    requires
        0 <= j < width,
    ensures
        bytes_of(n, width).len() == width,
        bytes_of(n, width)[j] == (n as int / pow(256, j as nat)) % 256,
    decreases width,
{
    reveal(pow);
    bytes_have_width(n, width);
    if j > 0 {
        bytes_are_digits(n / 256, (width - 1) as nat, j - 1);
        let p = pow(256, (j - 1) as nat);
        lemma_pow_positive(256, (j - 1) as nat);
        lemma_div_denominator(n as int, 256, p);
        assert(pow(256, j as nat) == 256 * p);
        assert(bytes_of(n, width)[j] == bytes_of(n / 256, (width - 1) as nat)[j - 1]);
    }
}

/// Only columns of signed whole numbers are read as whole numbers: any other type is an error,
/// whatever the bytes.
pub proof fn other_columns_hold_no_wholes(column: ColumnView, n: nat)
    requires
        plain_type(column.dtype) != "i8"@,
        plain_type(column.dtype) != "i4"@,
    ensures
        read_wholes(column, n) is Err,
{
}

/// A byte-order mark in front of a column type changes nothing.
pub proof fn marks_change_nothing(mark: char, dtype: Seq<char>)
    requires
        is_order_mark(mark),
    ensures
        plain_type(seq![mark] + dtype) == plain_type(dtype),
{
    let marked = seq![mark] + dtype;
    assert(after_marks(marked, 0) == after_marks(marked, 1));
    marks_behind(mark, dtype, 0);
    let k = after_marks(dtype, 0);
    assert(marked.skip(k + 1) =~= dtype.skip(k));
}

/// A column type in lower case without a byte-order mark is plain, and with one in front it names
/// that plain type.
pub proof fn plain_types_stay(dtype: Seq<char>)
    requires
        dtype.len() > 0 ==> !is_order_mark(dtype[0]),
        forall|i: int| 0 <= i < dtype.len() ==> !('A' <= #[trigger] dtype[i] <= 'Z'),
    ensures
        plain_type(dtype) == dtype,
        forall|mark: char|
            is_order_mark(mark) ==> plain_type(#[trigger] (seq![mark] + dtype)) == dtype,
{
    assert(after_marks(dtype, 0) == 0);
    assert(lowered(dtype.skip(0)) =~= dtype);
    assert forall|mark: char| is_order_mark(mark) implies plain_type(
        #[trigger] (seq![mark] + dtype),
    ) == dtype by {
        marks_change_nothing(mark, dtype);
    }
}

proof fn marks_behind(mark: char, dtype: Seq<char>, i: int)
    requires
        0 <= i <= dtype.len(),
    ensures
        after_marks(seq![mark] + dtype, i + 1) == after_marks(dtype, i) + 1,
        i <= after_marks(dtype, i) <= dtype.len(),
    decreases dtype.len() - i,
{
    if i < dtype.len() {
        assert((seq![mark] + dtype)[i + 1] == dtype[i]);
        marks_behind(mark, dtype, i + 1);
    }
}

proof fn codes_read_back(c: char)
    ensures
        is_char_code(c as u32 as nat),
        ((c as u32 as nat) as u32) as char == c,
        c != '\0' ==> c as u32 != 0,
{
    let code = c as u32;
    assert(code == c as int);
    assert(code as char as int == code);
}

/// An element that stands in the data is read as the text that it is made of, from character `j`
/// on.
proof fn element_reads_back(data: Seq<u8>, at: int, s: Seq<char>, j: int)
    requires
        s.len() <= RUNES,
        !s.contains('\0'),
        0 <= j <= RUNES,
        forall|k: int| 0 <= k < ELEMENT_BYTES ==> data[at + k] == #[trigger] element_of(s)[k],
    ensures
        element_text(data, at, j) == if j < s.len() {
            s.skip(j)
        } else {
            Seq::empty()
        },
    decreases RUNES - j,
{
    if j < RUNES {
        let parts = Seq::new(RUNES as nat, |k: int| bytes_of(rune_code(s, k), 4));
        assert forall|k: int| 0 <= k < parts.len() implies (#[trigger] parts[k]).len() == 4 by {
            bytes_have_width(rune_code(s, k), 4);
        }
        parts_stand_in_place(parts, 4);
        width_bounds();
        let code = rune_code(s, j);
        assert forall|k: int| 0 <= k < 4 implies data[at + 4 * j + k] == #[trigger] bytes_of(
            code,
            4,
        )[k] by {
            assert(parts[j][k] == bytes_of(code, 4)[k]);
            assert(data[at + (j * 4 + k)] == element_of(s)[j * 4 + k]);
        }
        bytes_read_back(data, at + 4 * j, code, 4);
        element_reads_back(data, at, s, j + 1);
        if j < s.len() {
            let c = s[j];
            assert(s.contains(c));
            codes_read_back(c);
            if j + 1 < s.len() {
                assert(seq![c] + s.skip(j + 1) =~= s.skip(j));
            } else {
                assert(seq![c] + Seq::<char>::empty() =~= s.skip(j));
            }
        }
    }
}

/// A column of texts is read back as those texts, a text of full length included.
pub proof fn columns_of_texts_read_back(
    name: Seq<char>,
    dtype: Seq<char>,
    texts: Seq<Seq<char>>,
)
    requires
        is_text_type(plain_type(dtype)),
        all_fit(texts),
    ensures
        read_texts(ColumnView { name, dtype, data: column_of_texts(texts) }, texts.len()) == Ok::<
            Seq<Seq<char>>,
            Seq<char>,
        >(texts),
{
    let parts = texts.map_values(|s: Seq<char>| element_of(s));
    let data = column_of_texts(texts);
    assert forall|i: int| 0 <= i < parts.len() implies (#[trigger] parts[i]).len() == 64 by {
        elements_have_width(texts[i]);
    }
    parts_stand_in_place(parts, 64);
    let read = Seq::new(texts.len(), |i: int| element_text(data, i * ELEMENT_BYTES, 0));
    assert forall|i: int| 0 <= i < texts.len() implies read[i] == texts[i] by {
        let s = texts[i];
        assert forall|k: int| 0 <= k < ELEMENT_BYTES implies data[i * 64 + k]
            == #[trigger] element_of(s)[k] by {
            assert(parts[i][k] == element_of(s)[k]);
        }
        element_reads_back(data, i * 64, s, 0);
        assert(s.skip(0) =~= s);
        if s.len() == 0 {
            assert(s =~= Seq::<char>::empty());
        }
    }
    assert(read =~= texts);
}

proof fn elements_have_width(s: Seq<char>)
    ensures
        element_of(s).len() == 64,
{
    let parts = Seq::new(RUNES as nat, |j: int| bytes_of(rune_code(s, j), 4));
    assert forall|k: int| 0 <= k < parts.len() implies (#[trigger] parts[k]).len() == 4 by {
        bytes_have_width(rune_code(s, k), 4);
    }
    parts_stand_in_place(parts, 4);
}

/// Whether column `k` is the first of a result set with this name.
pub open spec fn is_first_named(ds: NumpyDataset, k: int, name: Seq<char>) -> bool {
    &&& 0 <= k < ds.column_names@.len()
    &&& ds.column_names@[k]@ == name
    &&& forall|j: int| 0 <= j < k ==> (#[trigger] ds.column_names@[j])@ != name
}

/// Whether a result set has no column with this name.
pub open spec fn lacks(ds: NumpyDataset, name: Seq<char>) -> bool {
    forall|j: int| 0 <= j < ds.column_names@.len() ==> (#[trigger] ds.column_names@[j])@ != name
}

/// Whether the first column with this name holds these numbers, one for each row.
pub open spec fn holds_numbers(ds: NumpyDataset, name: Seq<char>, v: Seq<Number>) -> bool {
    exists|k: int, ty: NumberType|
        #![trigger is_first_named(ds, k, name), column_of_numbers(v, ty)]
        {
            &&& is_first_named(ds, k, name)
            &&& number_type(plain_type(ds.column_types@[k]@)) == Some(ty)
            &&& all_stored_as(v, ty)
            &&& v.len() == ds.length
            &&& ds.column_data@[k]@ == column_of_numbers(v, ty)
        }
}

/// Whether the first column with this name holds these whole numbers, one for each row, in eight
/// bytes each or in four.
pub open spec fn holds_wholes(ds: NumpyDataset, name: Seq<char>, v: Seq<i64>) -> bool {
    exists|k: int|
        {
            &&& #[trigger] is_first_named(ds, k, name)
            &&& v.len() == ds.length
            &&& is_column_of_wholes(ds.column_types@[k]@, ds.column_data@[k]@, v)
        }
}

/// Whether a column of this type and data holds these whole numbers.
pub open spec fn is_column_of_wholes(dtype: Seq<char>, data: Seq<u8>, v: Seq<i64>) -> bool {
    ||| plain_type(dtype) == "i8"@ && data == column_of_64(v)
    ||| plain_type(dtype) == "i4"@ && exists|w: Seq<i32>| v == widened(w) && data
        == #[trigger] column_of_32(w)
}

/// Whether the first column with this name holds these texts, one for each row.
pub open spec fn holds_texts(ds: NumpyDataset, name: Seq<char>, v: Seq<Seq<char>>) -> bool {
    exists|k: int|
        {
            &&& #[trigger] is_first_named(ds, k, name)
            &&& is_text_type(plain_type(ds.column_types@[k]@))
            &&& all_fit(v)
            &&& v.len() == ds.length
            &&& ds.column_data@[k]@ == column_of_texts(v)
        }
}

/// Whether the times of all rows are instants from 1970 on that fit in 63 bits, also when moved on
/// by `delta`.
pub open spec fn times_fit(epochs: Seq<i64>, nanos: Seq<i64>, delta: u64) -> bool {
    forall|i: int|
        0 <= i < epochs.len() ==> 0 <= #[trigger] epochs[i] && epochs[i] * 1_000_000_000
            <= i64::MAX && 0 <= epochs[i] * 1_000_000_000 + nanos[i] <= i64::MAX && epochs[i]
            * 1_000_000_000 + nanos[i] + delta <= u64::MAX
}

proof fn first_is_found(ds: NumpyDataset, name: Seq<char>, k: int, i: int)
    requires
        is_first_named(ds, k, name),
        0 <= i <= k,
    ensures
        column_from(ds, name, i) == Some(k),
    decreases k - i,
{
    if i < k {
        first_is_found(ds, name, k, i + 1);
    }
}

proof fn nothing_is_found(ds: NumpyDataset, name: Seq<char>, i: int)
    requires
        lacks(ds, name),
        0 <= i,
    ensures
        column_from(ds, name, i) is None,
    decreases ds.column_names@.len() - i,
{
    if i < ds.column_names@.len() {
        nothing_is_found(ds, name, i + 1);
    }
}

proof fn numbers_are_found(ds: NumpyDataset, name: Seq<char>, v: Seq<Number>)
    requires
        holds_numbers(ds, name, v),
    ensures
        numbers_in(ds, name) == Ok::<Seq<Number>, Seq<char>>(v),
{
    let (k, ty) = choose|k: int, ty: NumberType|
        #![trigger is_first_named(ds, k, name), column_of_numbers(v, ty)]
        {
            &&& is_first_named(ds, k, name)
            &&& number_type(plain_type(ds.column_types@[k]@)) == Some(ty)
            &&& all_stored_as(v, ty)
            &&& v.len() == ds.length
            &&& ds.column_data@[k]@ == column_of_numbers(v, ty)
        };
    first_is_found(ds, name, k, 0);
    columns_of_numbers_read_back(name, ds.column_types@[k]@, ty, v);
}

proof fn wholes_are_found(ds: NumpyDataset, name: Seq<char>, v: Seq<i64>)
    requires
        holds_wholes(ds, name, v),
    ensures
        wholes_in(ds, name) == Ok::<Seq<int>, Seq<char>>(as_ints(v)),
        wholes_if_any(ds, name) == Ok::<Option<Seq<int>>, Seq<char>>(Some(as_ints(v))),
        v.len() == ds.length,
{
    let k = choose|k: int|
        {
            &&& #[trigger] is_first_named(ds, k, name)
            &&& v.len() == ds.length
            &&& is_column_of_wholes(ds.column_types@[k]@, ds.column_data@[k]@, v)
        };
    first_is_found(ds, name, k, 0);
    let dtype = ds.column_types@[k]@;
    let data = ds.column_data@[k]@;
    if plain_type(dtype) == "i8"@ && data == column_of_64(v) {
        columns_of_64_read_back(name, dtype, v);
    } else {
        let w = choose|w: Seq<i32>| v == widened(w) && data == #[trigger] column_of_32(w);
        columns_of_32_read_back(name, dtype, w);
    }
}

proof fn texts_are_found(ds: NumpyDataset, name: Seq<char>, v: Seq<Seq<char>>)
    requires
        holds_texts(ds, name, v),
    ensures
        texts_if_any(ds, name) == Ok::<Option<Seq<Seq<char>>>, Seq<char>>(Some(v)),
{
    let k = choose|k: int|
        {
            &&& #[trigger] is_first_named(ds, k, name)
            &&& is_text_type(plain_type(ds.column_types@[k]@))
            &&& all_fit(v)
            &&& v.len() == ds.length
            &&& ds.column_data@[k]@ == column_of_texts(v)
        };
    first_is_found(ds, name, k, 0);
    columns_of_texts_read_back(name, ds.column_types@[k]@, v);
}

proof fn times_are_found(epochs: Seq<i64>, nanos: Seq<i64>, delta: u64)
    requires
        times_fit(epochs, nanos, delta),
        nanos.len() == epochs.len(),
    ensures
        ({
            let times = stamps(as_ints(epochs), Some(as_ints(nanos)));
            &&& stamps_fit(as_ints(epochs), Some(as_ints(nanos)))
            &&& shifts_fit(times, delta)
            &&& times.len() == epochs.len()
            &&& forall|i: int|
                0 <= i < epochs.len() ==> #[trigger] times[i] == epochs[i] * 1_000_000_000
                    + nanos[i] && shifted(times, delta)[i] == times[i] + delta
        }),
{
    let e = as_ints(epochs);
    let f = Some(as_ints(nanos));
    let times = stamps(e, f);
    assert forall|i: int| 0 <= i < epochs.len() implies stamp(#[trigger] e[i], frac_at(f, i))
        is Some by {
        assert(e[i] == epochs[i]);
    }
    assert forall|i: int| 0 <= i < epochs.len() implies #[trigger] times[i] == epochs[i]
        * 1_000_000_000 + nanos[i] && shifted(times, delta)[i] == times[i] + delta && times[i]
        + delta <= u64::MAX by {
        assert(e[i] == epochs[i]);
        assert(stamp(e[i], frac_at(f, i)) is Some);
    }
}

proof fn whole_seconds_are_found(epochs: Seq<i64>, nanos: Seq<i64>)
    requires
        nanos == Seq::new(epochs.len(), |i: int| 0i64),
    ensures
        stamps(as_ints(epochs), None) == stamps(as_ints(epochs), Some(as_ints(nanos))),
        stamps_fit(as_ints(epochs), Some(as_ints(nanos))) ==> stamps_fit(as_ints(epochs), None),
{
    let e = as_ints(epochs);
    let f = Some(as_ints(nanos));
    assert forall|i: int| 0 <= i < e.len() implies frac_at(f, i) == 0 by {
        assert(as_ints(nanos)[i] == nanos[i]);
    }
    assert(stamps(e, None) =~= stamps(e, f));
    if stamps_fit(e, f) {
        assert forall|i: int| 0 <= i < e.len() implies stamp(#[trigger] e[i], frac_at(None, i))
            is Some by {}
    }
}

/// Each field of decoded bars is the column of its own name. Where the first columns named `Open`,
/// `High`, `Low`, `Close` and `Volume` hold numbers, those are the bars' opens, highs, lows, closes
/// and volumes, row by row. A bar happens at the second that `Epoch` holds and the nanoseconds that
/// `Nanoseconds` holds, and is known `delta` later.
pub proof fn bars_are_their_columns(
    ds: NumpyDataset,
    delta: u64,
    epochs: Seq<i64>,
    nanos: Seq<i64>,
    open: Seq<Number>,
    high: Seq<Number>,
    low: Seq<Number>,
    close: Seq<Number>,
    volume: Seq<Number>,
)
    requires
        ds.column_types@.len() == ds.column_names@.len(),
        ds.column_data@.len() == ds.column_names@.len(),
        ds.length > 0,
        holds_wholes(ds, "Epoch"@, epochs),
        holds_wholes(ds, "Nanoseconds"@, nanos) || lacks(ds, "Nanoseconds"@) && nanos == Seq::new(
            epochs.len(),
            |i: int| 0i64,
        ),
        times_fit(epochs, nanos, delta),
        holds_numbers(ds, "Open"@, open),
        holds_numbers(ds, "High"@, high),
        holds_numbers(ds, "Low"@, low),
        holds_numbers(ds, "Close"@, close),
        holds_numbers(ds, "Volume"@, volume),
    ensures
        bars_of(NumpyMultiDataset { data: Some(ds) }, delta) matches Ok(Some(bars)) && {
            &&& bars.open == open
            &&& bars.high == high
            &&& bars.low == low
            &&& bars.close == close
            &&& bars.volume == volume
            &&& bars.ts_event.len() == ds.length && bars.ts_init.len() == ds.length
            &&& forall|i: int|
                0 <= i < ds.length ==> #[trigger] bars.ts_event[i] == epochs[i] * 1_000_000_000
                    + nanos[i] && bars.ts_init[i] == bars.ts_event[i] + delta
        },
{
    wholes_are_found(ds, "Epoch"@, epochs);
    if holds_wholes(ds, "Nanoseconds"@, nanos) {
        wholes_are_found(ds, "Nanoseconds"@, nanos);
    } else {
        nothing_is_found(ds, "Nanoseconds"@, 0);
        whole_seconds_are_found(epochs, nanos);
    }
    times_are_found(epochs, nanos, delta);
    numbers_are_found(ds, "Open"@, open);
    numbers_are_found(ds, "High"@, high);
    numbers_are_found(ds, "Low"@, low);
    numbers_are_found(ds, "Close"@, close);
    numbers_are_found(ds, "Volume"@, volume);
    let times = stamps(as_ints(epochs), Some(as_ints(nanos)));
    let bars = bars_in(ds, delta)->Ok_0->Some_0;
    assert(bars.ts_event == times);
    assert forall|i: int| 0 <= i < ds.length implies #[trigger] bars.ts_event[i] == epochs[i]
        * 1_000_000_000 + nanos[i] && bars.ts_init[i] == bars.ts_event[i] + delta by {
        assert(times[i] == epochs[i] * 1_000_000_000 + nanos[i]);
    }
}

/// Each field of decoded trades is the column of its own name: the price is `Price`, the size
/// `Size` and the id `TradeID`, row by row. Without a column of ids, a trade's id is its time and
/// its row, with a hyphen between. A trade happens at the second that `Epoch` holds and the
/// nanoseconds that `Nanoseconds` holds.
pub proof fn trades_are_their_columns(
    ds: NumpyDataset,
    epochs: Seq<i64>,
    nanos: Seq<i64>,
    price: Seq<Number>,
    size: Seq<Number>,
    ids: Seq<Seq<char>>,
)
    requires
        ds.column_types@.len() == ds.column_names@.len(),
        ds.column_data@.len() == ds.column_names@.len(),
        ds.length > 0,
        holds_wholes(ds, "Epoch"@, epochs),
        holds_wholes(ds, "Nanoseconds"@, nanos) || lacks(ds, "Nanoseconds"@) && nanos == Seq::new(
            epochs.len(),
            |i: int| 0i64,
        ),
        times_fit(epochs, nanos, 0),
        holds_numbers(ds, "Price"@, price),
        holds_numbers(ds, "Size"@, size),
        holds_texts(ds, "TradeID"@, ids) || lacks(ds, "TradeID"@) && ids == Seq::new(
            epochs.len(),
            |i: int|
                digits((epochs[i] * 1_000_000_000 + nanos[i]) as nat) + seq!['-'] + digits(
                    i as nat,
                ),
        ),
    ensures
        trades_of(NumpyMultiDataset { data: Some(ds) }) matches Ok(Some(trades)) && {
            &&& trades.price == price
            &&& trades.size == size
            &&& trades.trade_id == ids
            &&& trades.ts_event.len() == ds.length
            &&& forall|i: int|
                0 <= i < ds.length ==> #[trigger] trades.ts_event[i] == epochs[i] * 1_000_000_000
                    + nanos[i]
        },
{
    wholes_are_found(ds, "Epoch"@, epochs);
    if holds_wholes(ds, "Nanoseconds"@, nanos) {
        wholes_are_found(ds, "Nanoseconds"@, nanos);
    } else {
        nothing_is_found(ds, "Nanoseconds"@, 0);
        whole_seconds_are_found(epochs, nanos);
    }
    times_are_found(epochs, nanos, 0);
    numbers_are_found(ds, "Price"@, price);
    numbers_are_found(ds, "Size"@, size);
    let times = stamps(as_ints(epochs), Some(as_ints(nanos)));
    if holds_texts(ds, "TradeID"@, ids) {
        texts_are_found(ds, "TradeID"@, ids);
    } else {
        nothing_is_found(ds, "TradeID"@, 0);
        reveal_strlit("-");
        assert("-"@ =~= seq!['-']);
        assert forall|i: int| 0 <= i < ids.len() implies trade_ids(None, times)[i] == ids[i] by {
            assert(times[i] == epochs[i] * 1_000_000_000 + nanos[i]);
        }
        assert(trade_ids(None, times) =~= ids);
    }
    let trades = trades_in(ds)->Ok_0->Some_0;
    assert(trades.ts_event == times);
    assert forall|i: int| 0 <= i < ds.length implies #[trigger] trades.ts_event[i] == epochs[i]
        * 1_000_000_000 + nanos[i] by {
        assert(times[i] == epochs[i] * 1_000_000_000 + nanos[i]);
    }
}

/// Each field of decoded quotes is the column of its own name: the bid's price is `BidPrice` and
/// its size `BidSize`, the ask's price is `AskPrice` and its size `AskSize`, row by row. A quote
/// happens at the second that `Epoch` holds and the nanoseconds that `Nanoseconds` holds.
pub proof fn quotes_are_their_columns(
    ds: NumpyDataset,
    epochs: Seq<i64>,
    nanos: Seq<i64>,
    bid_price: Seq<Number>,
    ask_price: Seq<Number>,
    bid_size: Seq<Number>,
    ask_size: Seq<Number>,
)
    requires
        ds.column_types@.len() == ds.column_names@.len(),
        ds.column_data@.len() == ds.column_names@.len(),
        ds.length > 0,
        holds_wholes(ds, "Epoch"@, epochs),
        holds_wholes(ds, "Nanoseconds"@, nanos) || lacks(ds, "Nanoseconds"@) && nanos == Seq::new(
            epochs.len(),
            |i: int| 0i64,
        ),
        times_fit(epochs, nanos, 0),
        holds_numbers(ds, "BidPrice"@, bid_price),
        holds_numbers(ds, "AskPrice"@, ask_price),
        holds_numbers(ds, "BidSize"@, bid_size),
        holds_numbers(ds, "AskSize"@, ask_size),
    ensures
        quotes_of(NumpyMultiDataset { data: Some(ds) }) matches Ok(Some(quotes)) && {
            &&& quotes.bid_price == bid_price
            &&& quotes.ask_price == ask_price
            &&& quotes.bid_size == bid_size
            &&& quotes.ask_size == ask_size
            &&& quotes.ts_event.len() == ds.length
            &&& forall|i: int|
                0 <= i < ds.length ==> #[trigger] quotes.ts_event[i] == epochs[i] * 1_000_000_000
                    + nanos[i]
        },
{
    wholes_are_found(ds, "Epoch"@, epochs);
    if holds_wholes(ds, "Nanoseconds"@, nanos) {
        wholes_are_found(ds, "Nanoseconds"@, nanos);
    } else {
        nothing_is_found(ds, "Nanoseconds"@, 0);
        whole_seconds_are_found(epochs, nanos);
    }
    times_are_found(epochs, nanos, 0);
    numbers_are_found(ds, "BidPrice"@, bid_price);
    numbers_are_found(ds, "AskPrice"@, ask_price);
    numbers_are_found(ds, "BidSize"@, bid_size);
    numbers_are_found(ds, "AskSize"@, ask_size);
    let times = stamps(as_ints(epochs), Some(as_ints(nanos)));
    let quotes = quotes_in(ds)->Ok_0->Some_0;
    assert(quotes.ts_event == times);
    assert forall|i: int| 0 <= i < ds.length implies #[trigger] quotes.ts_event[i] == epochs[i]
        * 1_000_000_000 + nanos[i] by {
        assert(times[i] == epochs[i] * 1_000_000_000 + nanos[i]);
    }
}

/// A result with rows that lacks a column is an error, for every column but the nanoseconds and the
/// ids of trades. A result without rows is none, whatever its columns.
pub proof fn columns_may_not_be_missing(ds: NumpyDataset, delta: u64)
    ensures
        ds.length > 0 && consistent(ds) && (lacks(ds, "Epoch"@) || lacks(ds, "Open"@) || lacks(
            ds,
            "High"@,
        ) || lacks(ds, "Low"@) || lacks(ds, "Close"@) || lacks(ds, "Volume"@)) ==> bars_of(
            NumpyMultiDataset { data: Some(ds) },
            delta,
        ) is Err,
        ds.length > 0 && consistent(ds) && (lacks(ds, "Epoch"@) || lacks(ds, "Price"@) || lacks(
            ds,
            "Size"@,
        )) ==> trades_of(NumpyMultiDataset { data: Some(ds) }) is Err,
        ds.length > 0 && consistent(ds) && (lacks(ds, "Epoch"@) || lacks(ds, "BidPrice"@) || lacks(
            ds,
            "AskPrice"@,
        ) || lacks(ds, "BidSize"@) || lacks(ds, "AskSize"@)) ==> quotes_of(
            NumpyMultiDataset { data: Some(ds) },
        ) is Err,
        ds.length == 0 ==> {
            &&& bars_of(NumpyMultiDataset { data: Some(ds) }, delta) matches Ok(Some(bars))
                && bars.ts_event.len() == 0 && bars.close.len() == 0
            &&& trades_of(NumpyMultiDataset { data: Some(ds) }) matches Ok(Some(trades))
                && trades.ts_event.len() == 0 && trades.price.len() == 0
            &&& quotes_of(NumpyMultiDataset { data: Some(ds) }) matches Ok(Some(quotes))
                && quotes.ts_event.len() == 0 && quotes.bid_price.len() == 0
        },
        ds.length > 0 && (ds.column_names@.len() != ds.column_types@.len()
            || ds.column_names@.len() != ds.column_data@.len()) ==> {
            &&& bars_of(NumpyMultiDataset { data: Some(ds) }, delta) is Err
            &&& trades_of(NumpyMultiDataset { data: Some(ds) }) is Err
            &&& quotes_of(NumpyMultiDataset { data: Some(ds) }) is Err
        },
{
    missing_is_wrong(ds, "Epoch"@);
    missing_is_wrong(ds, "Open"@);
    missing_is_wrong(ds, "High"@);
    missing_is_wrong(ds, "Low"@);
    missing_is_wrong(ds, "Close"@);
    missing_is_wrong(ds, "Volume"@);
    missing_is_wrong(ds, "Price"@);
    missing_is_wrong(ds, "Size"@);
    missing_is_wrong(ds, "BidPrice"@);
    missing_is_wrong(ds, "AskPrice"@);
    missing_is_wrong(ds, "BidSize"@);
    missing_is_wrong(ds, "AskSize"@);
}

proof fn missing_is_wrong(ds: NumpyDataset, name: Seq<char>)
    ensures
        lacks(ds, name) ==> numbers_in(ds, name) is Err && wholes_in(ds, name) is Err,
{
    if lacks(ds, name) {
        nothing_is_found(ds, name, 0);
    }
}

/// The types that columns of numbers come in: `<f4` and `<f8` hold floating-point numbers of four
/// and eight bytes, `<i4` and `<i8` signed whole numbers, `<u4` and `<u8` whole numbers without a
/// sign. Only the signed ones are read as whole numbers.
pub proof fn types_are_read_as_written()
    ensures
        number_type(plain_type("<f4"@)) == Some(NumberType::F4),
        number_type(plain_type("<f8"@)) == Some(NumberType::F8),
        number_type(plain_type("<i4"@)) == Some(NumberType::I4),
        number_type(plain_type("<i8"@)) == Some(NumberType::I8),
        number_type(plain_type("<u4"@)) == Some(NumberType::U4),
        number_type(plain_type("<u8"@)) == Some(NumberType::U8),
        plain_type("<i4"@) == "i4"@,
        plain_type("<i8"@) == "i8"@,
{
    reveal_strlit("<f4");
    reveal_strlit("<f8");
    reveal_strlit("<i4");
    reveal_strlit("<i8");
    reveal_strlit("<u4");
    reveal_strlit("<u8");
    reveal_strlit("f4");
    reveal_strlit("f8");
    reveal_strlit("i4");
    reveal_strlit("i8");
    reveal_strlit("u4");
    reveal_strlit("u8");
    assert("<f4"@ =~= seq!['<'] + "f4"@);
    assert("<f8"@ =~= seq!['<'] + "f8"@);
    assert("<i4"@ =~= seq!['<'] + "i4"@);
    assert("<i8"@ =~= seq!['<'] + "i8"@);
    assert("<u4"@ =~= seq!['<'] + "u4"@);
    assert("<u8"@ =~= seq!['<'] + "u8"@);
    plain_types_stay("f4"@);
    plain_types_stay("f8"@);
    plain_types_stay("i4"@);
    plain_types_stay("i8"@);
    plain_types_stay("u4"@);
    plain_types_stay("u8"@);
    assert("f4"@[0] == 'f' && "f4"@[1] == '4');
    assert("f8"@[0] == 'f' && "f8"@[1] == '8');
    assert("i4"@[0] == 'i' && "i4"@[1] == '4');
    assert("i8"@[0] == 'i' && "i8"@[1] == '8');
    assert("u4"@[0] == 'u' && "u4"@[1] == '4');
    assert("u8"@[0] == 'u' && "u8"@[1] == '8');
}

/// The marks in front of a column type are those for either byte order, for the machine's own and
/// for none; whichever stands there, the type is the one behind it.
pub proof fn every_mark_is_passed_over(dtype: Seq<char>)
    ensures
        plain_type(seq!['<'] + dtype) == plain_type(dtype),
        plain_type(seq!['>'] + dtype) == plain_type(dtype),
        plain_type(seq!['='] + dtype) == plain_type(dtype),
        plain_type(seq!['|'] + dtype) == plain_type(dtype),
{
    marks_change_nothing('<', dtype);
    marks_change_nothing('>', dtype);
    marks_change_nothing('=', dtype);
    marks_change_nothing('|', dtype);
}

/// A column with more or fewer bytes than its rows need is an error: numbers need four or eight
/// each, texts sixty-four.
pub proof fn columns_have_to_fill_their_rows(column: ColumnView, n: nat)
    ensures
        column.data.len() != n * 4 && column.data.len() != n * 8 ==> read_numbers(column, n) is Err
            && read_wholes(column, n) is Err,
        column.data.len() != n * 64 ==> read_texts(column, n) is Err,
        plain_type(column.dtype) == "i8"@ && column.data.len() != n * 8 ==> read_wholes(column, n)
            is Err,
{
}

/// A time is its seconds as nanoseconds and its nanoseconds, where both sums fit in 64 bits with a
/// sign; a time before 1970 is written in two's complement. Else there is none.
pub proof fn times_are_seconds_and_nanoseconds(epoch: int, frac: int)
    ensures
        stamp(epoch, frac) is Some <==> i64::MIN <= epoch * 1_000_000_000 <= i64::MAX && i64::MIN
            <= epoch * 1_000_000_000 + frac <= i64::MAX,
        stamp(epoch, frac) matches Some(t) ==> t as int == (epoch * 1_000_000_000 + frac)
            % 0x1_0000_0000_0000_0000,
{
}

/// A text in a column ends at its first zero, whatever stands behind it, and a number that is the
/// code of no character is passed over.
pub proof fn texts_end_at_the_first_zero(data: Seq<u8>, at: int, j: int)
    requires
        0 <= j < 16,
    ensures
        little_endian(data, at + 4 * j, 4) == 0 ==> element_text(data, at, j).len() == 0,
        little_endian(data, at + 4 * j, 4) > 0x10_ffff ==> element_text(data, at, j)
            == element_text(data, at, j + 1),
        element_text(data, at, 16).len() == 0,
{
}

/// A column type that begins with `S`, or with `U16`, behind its byte-order mark holds texts.
pub proof fn text_types_begin_so(rest: Seq<char>)
    ensures
        is_text_type(plain_type(seq!['|', 'S'] + rest)),
        is_text_type(plain_type(seq!['<', 'U', '1', '6'] + rest)),
        is_text_type(rest) ==> rest.len() > 0 && (rest[0] == 's' || rest.len() >= 3 && rest[0]
            == 'u' && rest[1] == '1' && rest[2] == '6'),
{
    let s = seq!['|', 'S'] + rest;
    assert(after_marks(s, 1) == 1);
    assert(after_marks(s, 0) == 1);
    assert(plain_type(s)[0] == 's');
    let u = seq!['<', 'U', '1', '6'] + rest;
    assert(after_marks(u, 1) == 1);
    assert(after_marks(u, 0) == 1);
    let plain = plain_type(u);
    assert(plain[0] == 'u' && plain[1] == '1' && plain[2] == '6');
}

/// The nanoseconds of Unix time that row `i` of a result set gives.
pub open spec fn row_nanos(epochs: Seq<int>, nanos: Option<Seq<int>>, i: int) -> int {
    epochs[i] * NANOS_PER_SEC + frac_at(nanos, i)
}

/// Decoding keeps the order of time: where a later row of the store is not before an earlier one,
/// and neither is before 1970, its bar neither happened nor was known before the earlier bar.
pub proof fn bars_keep_time_order(ds: NumpyDataset, delta: u64, bars: BarsView, i: int, j: int)
    requires
        bars_in(ds, delta) == Ok::<Option<BarsView>, Seq<char>>(Some(bars)),
        0 <= i < bars.ts_event.len(),
        0 <= j < bars.ts_event.len(),
        ({
            let epochs = wholes_in(ds, "Epoch"@)->Ok_0;
            let nanos = wholes_if_any(ds, "Nanoseconds"@)->Ok_0;
            0 <= row_nanos(epochs, nanos, i) <= row_nanos(epochs, nanos, j)
        }),
    ensures
        bars.ts_event[i] <= bars.ts_event[j],
        bars.ts_init[i] <= bars.ts_init[j],
{
    let epochs = wholes_in(ds, "Epoch"@)->Ok_0;
    let nanos = wholes_if_any(ds, "Nanoseconds"@)->Ok_0;
    assert(stamp(epochs[i], frac_at(nanos, i)) is Some);
    assert(stamp(epochs[j], frac_at(nanos, j)) is Some);
    assert(bars.ts_event[i] + delta <= u64::MAX);
    assert(bars.ts_event[j] + delta <= u64::MAX);
}

proof fn digits_without_hyphen(n: nat)
    ensures
        !digits(n).contains('-'),
{
    digits_write_out(n);
    if digits(n).contains('-') {
        let i = choose|i: int| 0 <= i < digits(n).len() && digits(n)[i] == '-';
        assert(is_digit(digits(n)[i]));
    }
}

/// Made-up ids are told apart by the time and the row that they are made of.
pub proof fn made_up_ids_differ(t1: u64, row1: nat, t2: u64, row2: nat)
    requires
        made_up_id(t1, row1) == made_up_id(t2, row2),
    ensures
        t1 == t2,
        row1 == row2,
{
    reveal_strlit("-");
    assert("-"@ =~= seq!['-']);
    digits_without_hyphen(t1 as nat);
    digits_without_hyphen(t2 as nat);
    digits_without_hyphen(row1);
    digits_without_hyphen(row2);
    split_joined(digits(t1 as nat), digits(row1), '-');
    split_joined(digits(t2 as nat), digits(row2), '-');
    split_single(digits(t1 as nat), '-');
    split_single(digits(t2 as nat), '-');
    split_single(digits(row1), '-');
    split_single(digits(row2), '-');
    let p1 = split(made_up_id(t1, row1), '-');
    let p2 = split(made_up_id(t2, row2), '-');
    assert(p1 =~= seq![digits(t1 as nat), digits(row1)]);
    assert(p2 =~= seq![digits(t2 as nat), digits(row2)]);
    assert(p1[0] == p2[0] && p1[1] == p2[1]);
    digits_write_out(t1 as nat);
    digits_write_out(t2 as nat);
    digits_write_out(row1);
    digits_write_out(row2);
}

proof fn digits_length(n: nat, k: nat)
    requires
        n < pow(10, k),
        k > 0,
    ensures
        digits(n).len() <= k,
    decreases k,
{
    reveal(pow);
    if n >= 10 {
        assert(pow(10, k) == 10 * pow(10, (k - 1) as nat));
        assert(k > 1) by {
            if k == 1 {
                assert(pow(10, 0) == 1);
            }
        }
        digits_length(n / 10, (k - 1) as nat);
    }
}

/// A made-up id of a row that a result can have is at most 31 characters long, well within the 36
/// that a trade's id may have.
pub proof fn made_up_ids_are_short(ts_event: u64, row: nat)
    requires
        row <= i32::MAX,
    ensures
        made_up_id(ts_event, row).len() <= 31,
{
    reveal_strlit("-");
    assert("-"@.len() == 1);
    assert(pow(10, 20) == 100_000_000_000_000_000_000 && pow(10, 10) == 10_000_000_000) by {
        reveal_with_fuel(pow, 21);
    }
    digits_length(ts_event as nat, 20);
    digits_length(row, 10);
}

/// The bytes of each stored type: four for `F4`, `I4` and `U4`, eight for `F8`, `I8` and `U8`. A
/// signed number is stored in two's complement, every other one as its bits.
pub proof fn numbers_are_stored_in_their_width(a: i32, b: i64, c: u32, d: u64)
    ensures
        NumberType::F4.width() == 4 && NumberType::I4.width() == 4 && NumberType::U4.width() == 4,
        NumberType::F8.width() == 8 && NumberType::I8.width() == 8 && NumberType::U8.width() == 8,
        stored_bits(Number::I4(a)) as int == a as int % 0x1_0000_0000,
        stored_bits(Number::I8(b)) as int == b as int % 0x1_0000_0000_0000_0000,
        stored_bits(Number::U4(c)) == c && stored_bits(Number::F4(c)) == c,
        stored_bits(Number::U8(d)) == d && stored_bits(Number::F8(d)) == d,
{
}

/// The contents of decoded columns are the columns themselves.
pub proof fn contents_are_the_columns(bars: RawBars, trades: RawTrades, quotes: RawQuotes, i: int)
    ensures
        bars@.ts_event == bars.ts_event@ && bars@.ts_init == bars.ts_init@,
        bars@.open == bars.open@ && bars@.high == bars.high@ && bars@.low == bars.low@,
        bars@.close == bars.close@ && bars@.volume == bars.volume@,
        trades@.ts_event == trades.ts_event@ && trades@.price == trades.price@ && trades@.size
            == trades.size@,
        trades@.trade_id.len() == trades.trade_id@.len(),
        0 <= i < trades.trade_id@.len() ==> trades@.trade_id[i] == trades.trade_id@[i]@,
        quotes@.ts_event == quotes.ts_event@,
        quotes@.bid_price == quotes.bid_price@ && quotes@.ask_price == quotes.ask_price@,
        quotes@.bid_size == quotes.bid_size@ && quotes@.ask_size == quotes.ask_size@,
{
}

/// The error of a result set that lacks a column names that column, where those that are read
/// before it are in order.
pub proof fn the_missing_column_is_named(
    ds: NumpyDataset,
    delta: u64,
    epochs: Seq<i64>,
    nanos: Seq<i64>,
    open: Seq<Number>,
    high: Seq<Number>,
    low: Seq<Number>,
    close: Seq<Number>,
)
    requires
        ds.length > 0,
        ds.column_types@.len() == ds.column_names@.len(),
        ds.column_data@.len() == ds.column_names@.len(),
    ensures
        ({
            let bars = bars_of(NumpyMultiDataset { data: Some(ds) }, delta);
            let timed = holds_wholes(ds, "Epoch"@, epochs);
            &&& lacks(ds, "Epoch"@) ==> bars == Err::<Option<BarsView>, Seq<char>>(
                "missing "@ + "Epoch"@ + " column"@,
            )
            &&& timed && lacks(ds, "Open"@) ==> bars == Err::<Option<BarsView>, Seq<char>>(
                "missing "@ + "Open"@ + " column"@,
            )
            &&& timed && holds_numbers(ds, "Open"@, open) && lacks(ds, "High"@) ==> bars == Err::<
                Option<BarsView>,
                Seq<char>,
            >("missing "@ + "High"@ + " column"@)
            &&& timed && holds_numbers(ds, "Open"@, open) && holds_numbers(ds, "High"@, high)
                && lacks(ds, "Low"@) ==> bars == Err::<Option<BarsView>, Seq<char>>(
                "missing "@ + "Low"@ + " column"@,
            )
            &&& timed && holds_numbers(ds, "Open"@, open) && holds_numbers(ds, "High"@, high)
                && holds_numbers(ds, "Low"@, low) && lacks(ds, "Close"@) ==> bars == Err::<
                Option<BarsView>,
                Seq<char>,
            >("missing "@ + "Close"@ + " column"@)
            &&& timed && holds_numbers(ds, "Open"@, open) && holds_numbers(ds, "High"@, high)
                && holds_numbers(ds, "Low"@, low) && holds_numbers(ds, "Close"@, close) && lacks(
                ds,
                "Volume"@,
            ) ==> bars == Err::<Option<BarsView>, Seq<char>>("missing "@ + "Volume"@ + " column"@)
        }),
        ({
            let trades = trades_of(NumpyMultiDataset { data: Some(ds) });
            let quotes = quotes_of(NumpyMultiDataset { data: Some(ds) });
            let timed = holds_wholes(ds, "Epoch"@, epochs) && holds_wholes(
                ds,
                "Nanoseconds"@,
                nanos,
            );
            &&& timed && lacks(ds, "Price"@) ==> trades == Err::<Option<TradesView>, Seq<char>>(
                "missing "@ + "Price"@ + " column"@,
            )
            &&& timed && holds_numbers(ds, "Price"@, open) && lacks(ds, "Size"@) ==> trades
                == Err::<Option<TradesView>, Seq<char>>("missing "@ + "Size"@ + " column"@)
            &&& timed && lacks(ds, "BidPrice"@) ==> quotes == Err::<Option<QuotesView>, Seq<char>>(
                "missing "@ + "BidPrice"@ + " column"@,
            )
            &&& timed && holds_numbers(ds, "BidPrice"@, open) && lacks(ds, "AskPrice"@) ==> quotes
                == Err::<Option<QuotesView>, Seq<char>>("missing "@ + "AskPrice"@ + " column"@)
            &&& timed && holds_numbers(ds, "BidPrice"@, open) && holds_numbers(
                ds,
                "AskPrice"@,
                high,
            ) && lacks(ds, "BidSize"@) ==> quotes == Err::<Option<QuotesView>, Seq<char>>(
                "missing "@ + "BidSize"@ + " column"@,
            )
            &&& timed && holds_numbers(ds, "BidPrice"@, open) && holds_numbers(
                ds,
                "AskPrice"@,
                high,
            ) && holds_numbers(ds, "BidSize"@, low) && lacks(ds, "AskSize"@) ==> quotes == Err::<
                Option<QuotesView>,
                Seq<char>,
            >("missing "@ + "AskSize"@ + " column"@)
        }),
{
    if holds_wholes(ds, "Epoch"@, epochs) {
        wholes_are_found(ds, "Epoch"@, epochs);
    }
    if holds_wholes(ds, "Nanoseconds"@, nanos) {
        wholes_are_found(ds, "Nanoseconds"@, nanos);
    }
    found_or_missing(ds, "Epoch"@, open);
    found_or_missing(ds, "Open"@, open);
    found_or_missing(ds, "High"@, high);
    found_or_missing(ds, "Low"@, low);
    found_or_missing(ds, "Close"@, close);
    found_or_missing(ds, "Volume"@, close);
    found_or_missing(ds, "Price"@, open);
    found_or_missing(ds, "Size"@, open);
    found_or_missing(ds, "BidPrice"@, open);
    found_or_missing(ds, "AskPrice"@, high);
    found_or_missing(ds, "BidSize"@, low);
    found_or_missing(ds, "AskSize"@, low);
}

proof fn found_or_missing(ds: NumpyDataset, name: Seq<char>, v: Seq<Number>)
    ensures
        lacks(ds, name) ==> column_named(ds, name) is None,
        holds_numbers(ds, name, v) ==> numbers_in(ds, name) == Ok::<Seq<Number>, Seq<char>>(v),
{
    if lacks(ds, name) {
        nothing_is_found(ds, name, 0);
    }
    if holds_numbers(ds, name, v) {
        numbers_are_found(ds, name, v);
    }
}

} // verus!
