//! HTTP fields submitted to the library, their flags, and field validation.
use vstd::prelude::*;

verus! {

/// Flag bit: the field must never be put in the dynamic table.
pub const NV_FLAG_NEVER_INDEX: u8 = 0x01;

/// Flag bit (not exposed): the library may keep a pointer to the name.
pub const NV_FLAG_NO_COPY_NAME: u8 = 0x02;

/// Flag bit (not exposed): the library may keep a pointer to the value.
pub const NV_FLAG_NO_COPY_VALUE: u8 = 0x04;

/// Flag bit: the encoder should try to index the field.
pub const NV_FLAG_TRY_INDEX: u8 = 0x08;

/// Safe header flags. The pointer-lifetime flags of the C API cannot be
/// expressed: every submitted field is copied by the library.
#[derive(Clone, Copy, Debug, PartialEq, Eq)]
pub struct HeaderFlags(u8);

/// The no-copy bits are clear.
pub open spec fn copies_fields(bits: u8) -> bool {
    bits & (NV_FLAG_NO_COPY_NAME | NV_FLAG_NO_COPY_VALUE) == 0
}

impl View for HeaderFlags {
    type V = u8;

    closed spec fn view(&self) -> u8 {
        self.0
    }
}

impl HeaderFlags {
    #[verifier::type_invariant]
    spec fn never_no_copy(self) -> bool {
        copies_fields(self.0)
    }

    /// No flag set.
    pub fn none() -> (r: Self)
        ensures
            r@ == 0,
    {
        assert(copies_fields(0)) by (bit_vector);
        HeaderFlags(0)
    }

    /// Never index the field.
    pub fn never_index() -> (r: Self)
        ensures
            r@ == NV_FLAG_NEVER_INDEX,
    {
        assert(copies_fields(NV_FLAG_NEVER_INDEX)) by (bit_vector);
        HeaderFlags(NV_FLAG_NEVER_INDEX)
    }

    /// Try to index the field.
    pub fn try_index() -> (r: Self)
        ensures
            r@ == NV_FLAG_TRY_INDEX,
    {
        assert(copies_fields(NV_FLAG_TRY_INDEX)) by (bit_vector);
        HeaderFlags(NV_FLAG_TRY_INDEX)
    }

    /// The flags set in either operand.
    pub fn union(self, other: Self) -> (r: Self)
        ensures
            r@ == self@ | other@,
    {
        proof {
            use_type_invariant(&self);
            use_type_invariant(&other);
        }
        let a = self.0;
        let b = other.0;
        let bits = a | b;
        assert(copies_fields(bits)) by (bit_vector)
            requires
                copies_fields(a),
                copies_fields(b),
                bits == a | b,
        ;
        HeaderFlags(bits)
    }

    /// The raw flag bits; the no-copy bits are never among them.
    pub fn bits(self) -> (r: u8)
        ensures
            r == self@,
            copies_fields(r),
    {
        proof {
            use_type_invariant(&self);
        }
        self.0
    }
}

impl Default for HeaderFlags {
    /// No flag set.
    fn default() -> (r: Self)
        ensures
            r@ == 0,
    {
        HeaderFlags::none()
    }
}

/// The abstract content of a header: its name, its value and its flag bits.
pub ghost struct HeaderView {
    pub name: Seq<u8>,
    pub value: Seq<u8>,
    pub flags: u8,
}

/// An owned HTTP field suitable for safe submission to nghttp3.
#[derive(Clone, Debug)]
pub struct Header {
    name: Vec<u8>,
    value: Vec<u8>,
    flags: HeaderFlags,
}

impl View for Header {
    type V = HeaderView;

    closed spec fn view(&self) -> HeaderView {
        HeaderView { name: self.name@, value: self.value@, flags: self.flags@ }
    }
}

impl Header {
    /// A header with the given name and value and no flag.
    pub fn new(name: Vec<u8>, value: Vec<u8>) -> (r: Self)
        ensures
            r@ == (HeaderView { name: name@, value: value@, flags: 0 }),
    {
        Header { name, value, flags: HeaderFlags::none() }
    }

    /// The same header with its flags replaced by `flags`.
    pub fn with_flags(self, flags: HeaderFlags) -> (r: Self)
        ensures
            r@ == (HeaderView { flags: flags@, ..self@ }),
    {
        Header { flags, ..self }
    }

    pub fn name(&self) -> (r: &[u8])
        ensures
            r@ == self@.name,
    {
        self.name.as_slice()
    }

    pub fn value(&self) -> (r: &[u8])
        ensures
            r@ == self@.value,
    {
        self.value.as_slice()
    }

    /// The flag bits handed to the library with this field: never a no-copy bit,
    /// so the library always copies the name and the value.
    pub fn raw_flags(&self) -> (r: u8)
        ensures
            r == self@.flags,
            copies_fields(r),
    {
        self.flags.bits()
    }
}

/// A byte allowed in a field name: a token character other than an upper-case letter.
pub open spec fn is_name_byte(c: u8) -> bool {
    ||| c == 0x21  // !
    ||| 0x23 <= c <= 0x27  // # $ % & '
    ||| c == 0x2a || c == 0x2b  // * +
    ||| c == 0x2d || c == 0x2e  // - .
    ||| 0x30 <= c <= 0x39  // 0-9
    ||| 0x5e <= c <= 0x60  // ^ _ `
    ||| 0x61 <= c <= 0x7a  // a-z
    ||| c == 0x7c || c == 0x7e  // | ~
}

/// A byte allowed in a field value: horizontal tab, a visible character, a
/// space, or an obsolete text byte.
pub open spec fn is_value_byte(c: u8) -> bool {
    c == 0x09 || (0x20 <= c <= 0x7e) || c >= 0x80
}

/// Space or horizontal tab.
pub open spec fn is_ows(c: u8) -> bool {
    c == 0x20 || c == 0x09
}

/// A valid lower-case HTTP/3 field name: a non-empty token, optionally after a
/// leading `:` that is not the whole name.
pub open spec fn valid_header_name(s: Seq<u8>) -> bool {
    let start: int = if s.len() > 0 && s[0] == 0x3a {
        1
    } else {
        0
    };
    &&& s.len() > start
    &&& forall|i: int| start <= i < s.len() ==> is_name_byte(#[trigger] s[i])
}

/// A valid field value: allowed bytes only, and no space or tab at either end.
pub open spec fn valid_header_value(s: Seq<u8>) -> bool {
    &&& forall|i: int| 0 <= i < s.len() ==> is_value_byte(#[trigger] s[i])
    &&& s.len() > 0 ==> !is_ows(s[0]) && !is_ows(s[s.len() - 1])
}

/// A name written in lower-case letters, digits and hyphens, such as
/// `content-type` or `x-request-id`, is a valid field name, on its own and as
/// a pseudo-header after one leading colon.
pub proof fn lemma_lower_case_names_valid(s: Seq<u8>)
    requires
        s.len() > 0,
        forall|i: int|
            0 <= i < s.len() ==> {
                let c = #[trigger] s[i];
                (0x61 <= c <= 0x7a) || (0x30 <= c <= 0x39) || c == 0x2d
            },
    ensures
        valid_header_name(s),
        valid_header_name(seq![0x3au8] + s),
{
    let t = seq![0x3au8] + s;
    assert forall|i: int| 1 <= i < t.len() implies is_name_byte(#[trigger] t[i]) by {
        assert(t[i] == s[i - 1]);
    }
}

/// A name holding an upper-case letter anywhere is never valid, nor is the
/// empty name or a lone colon.
pub proof fn lemma_upper_case_names_invalid(s: Seq<u8>, k: int)
    requires
        0 <= k < s.len(),
        0x41 <= s[k] <= 0x5a,
    ensures
        !valid_header_name(s),
        !valid_header_name(Seq::<u8>::empty()),
        !valid_header_name(seq![0x3au8]),
{
}

/// A value that begins or ends with a space or a horizontal tab is never
/// valid: whitespace is refused at both ends alike.
pub proof fn lemma_edge_whitespace_values_invalid(s: Seq<u8>)
    requires
        s.len() > 0,
        s[0] == 0x20 || s[0] == 0x09 || s[s.len() - 1] == 0x20 || s[s.len() - 1] == 0x09,
    ensures
        !valid_header_value(s),
{
}

/// A value of printable ASCII, with spaces and tabs only inside it, is valid;
/// so is the empty value.
pub proof fn lemma_printable_values_valid(s: Seq<u8>)
    requires
        forall|i: int|
            0 <= i < s.len() ==> {
                let c = #[trigger] s[i];
                (0x20 <= c <= 0x7e) || c == 0x09
            },
        s.len() > 0 ==> 0x21 <= s[0] <= 0x7e && 0x21 <= s[s.len() - 1] <= 0x7e,
    ensures
        valid_header_value(s),
        valid_header_value(Seq::<u8>::empty()),
{
}

/// A name holding, after its first byte, a space, a control byte, a
/// non-ASCII byte, or a separator of `"(),/:;<=>?@[\]{}` is never valid.
pub proof fn lemma_separator_names_invalid(s: Seq<u8>, k: int)
    requires
        1 <= k < s.len(),
        ({
            let c = s[k];
            ||| c <= 0x20
            ||| c >= 0x7f
            ||| c == 0x22 || c == 0x28 || c == 0x29 || c == 0x2c || c == 0x2f
            ||| 0x3a <= c <= 0x40
            ||| 0x5b <= c <= 0x5d
            ||| c == 0x7b || c == 0x7d
        }),
    ensures
        !valid_header_name(s),
{
}

/// A value holding a control byte other than the horizontal tab, or DEL,
/// anywhere is never valid.
pub proof fn lemma_control_byte_values_invalid(s: Seq<u8>, k: int)
    requires
        0 <= k < s.len(),
        (s[k] < 0x20 && s[k] != 0x09) || s[k] == 0x7f,
    ensures
        !valid_header_value(s),
{
}

fn name_byte(c: u8) -> (r: bool)
    ensures
        r == is_name_byte(c),
{
    c == 0x21 || (0x23 <= c && c <= 0x27) || c == 0x2a || c == 0x2b || c == 0x2d || c == 0x2e || (
    0x30 <= c && c <= 0x39) || (0x5e <= c && c <= 0x60) || (0x61 <= c && c <= 0x7a) || c == 0x7c
        || c == 0x7e
}

/// Returns whether `name` is a valid lowercase HTTP/3 field name.
pub fn is_valid_header_name(name: &[u8]) -> (r: bool)
    ensures
        r == valid_header_name(name@),
{
    let len = name.len();
    if len == 0 {
        return false;
    }
    let start: usize = if name[0] == 0x3a {
        1
    } else {
        0
    };
    if len == start {
        return false;
    }
    let mut i: usize = start;
    while i < len
        invariant
            start <= i <= len,
            len == name@.len(),
            start == (if name@[0] == 0x3a {
                1int
            } else {
                0int
            }),
            forall|j: int| start <= j < i ==> is_name_byte(#[trigger] name@[j]),
        decreases len - i,
    {
        if !name_byte(name[i]) {
            return false;
        }
        i = i + 1;
    }
    true
}

/// Returns whether `value` is a valid HTTP field value.
pub fn is_valid_header_value(value: &[u8]) -> (r: bool)
    ensures
        r == valid_header_value(value@),
{
    let len = value.len();
    if len > 0 {
        let first = value[0];
        let last = value[len - 1];
        if first == 0x20 || first == 0x09 || last == 0x20 || last == 0x09 {
            return false;
        }
    }
    let mut i: usize = 0;
    while i < len
        invariant
            i <= len,
            len == value@.len(),
            forall|j: int| 0 <= j < i ==> is_value_byte(#[trigger] value@[j]),
        decreases len - i,
    {
        let c = value[i];
        if !(c == 0x09 || (0x20 <= c && c <= 0x7e) || c >= 0x80) {
            return false;
        }
        i = i + 1;
    }
    true
}

} // verus!
