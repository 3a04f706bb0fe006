//! Domain validation: raw field values are parsed into value objects
//! (`SubscriberName`, `SubscriberEmail`) that can only be constructed by
//! passing validation, so the rest of the system may trust them.

use vstd::prelude::*;

verus! {

/// Longest accepted subscriber name, counted in bytes; for ASCII names
/// this equals the character count.
pub const MAX_NAME_LEN: usize = 256;

/// ASCII space.
pub const SP: u8 = 0x20;

/// ASCII horizontal tab.
pub const TAB: u8 = 0x09;

/// ASCII line feed.
pub const LF: u8 = 0x0a;

/// ASCII carriage return.
pub const CR: u8 = 0x0d;

/// ASCII `@`.
pub const AT_SIGN: u8 = 0x40;

/// ASCII `.`.
pub const DOT: u8 = 0x2e;

/// Why a raw field value was rejected.
#[derive(Clone, Copy, Debug, PartialEq, Eq)]
pub enum ValidationError {
    /// The name is empty once surrounding whitespace is ignored.
    EmptyName,
    /// The name is longer than `MAX_NAME_LEN` bytes.
    NameTooLong,
    /// The name holds a forbidden (markup-breaking or control) byte.
    ForbiddenNameByte,
    /// The email does not match the address grammar.
    InvalidEmail,
}

pub open spec fn is_space_byte(b: u8) -> bool {
    b == SP || b == TAB || b == LF || b == CR
}

/// Bytes refused inside a subscriber name: markup-breaking symbols,
/// control characters and DEL.
pub open spec fn is_forbidden_name_byte(b: u8) -> bool {
    ||| b == 0x2f
    ||| b == 0x28
    ||| b == 0x29
    ||| b == 0x22
    ||| b == 0x3c
    ||| b == 0x3e
    ||| b == 0x5c
    ||| b == 0x7b
    ||| b == 0x7d
    ||| b < 0x20
    ||| b == 0x7f
}

pub open spec fn all_space(s: Seq<u8>) -> bool {
    forall|i: int| 0 <= i < s.len() ==> is_space_byte(s[i])
}

pub open spec fn has_forbidden_name_byte(s: Seq<u8>) -> bool {
    exists|i: int| 0 <= i < s.len() && is_forbidden_name_byte(s[i])
}

/// A byte string is a valid subscriber name when it is non-empty after
/// trimming, within the length bound, and free of forbidden bytes.
pub open spec fn valid_name(s: Seq<u8>) -> bool {
    &&& !all_space(s)
    &&& s.len() <= MAX_NAME_LEN
    &&& !has_forbidden_name_byte(s)
}

pub open spec fn no_space(s: Seq<u8>) -> bool {
    forall|i: int| 0 <= i < s.len() ==> !is_space_byte(s[i])
}

/// The single `@` of a valid address sits at `i`, with a non-empty
/// local part before it and a non-empty domain holding a `.` after it.
pub open spec fn email_shape_at(s: Seq<u8>, i: int) -> bool {
    &&& 1 <= i < s.len() - 1
    &&& s[i] == AT_SIGN
    &&& forall|j: int| 0 <= j < s.len() && j != i ==> s[j] != AT_SIGN
    &&& exists|j: int| i < j < s.len() && s[j] == DOT
}

/// Email grammar: no whitespace, exactly one `@` splitting a non-empty
/// local part from a non-empty domain that holds at least one `.`.
pub open spec fn valid_email(s: Seq<u8>) -> bool {
    &&& no_space(s)
    &&& exists|i: int| email_shape_at(s, i)
}

/// A subscriber name that has passed validation; construction through
/// `parse` is the only validation point.
pub struct SubscriberName {
    bytes: Vec<u8>,
}

impl View for SubscriberName {
    type V = Seq<u8>;

    closed spec fn view(&self) -> Seq<u8> {
        self.bytes@
    }
}

impl SubscriberName {
    /// Every instance in the system satisfies the name grammar.
    #[verifier::type_invariant]
    pub closed spec fn inv(self) -> bool {
        valid_name(self.bytes@)
    }

    /// Validate a raw name; the value object keeps the bytes unchanged.
    pub fn parse(raw: Vec<u8>) -> (r: Result<SubscriberName, ValidationError>)
        ensures
            r matches Ok(n) ==> n@ == raw@,
            r is Ok <==> valid_name(raw@),
            r == Err::<SubscriberName, ValidationError>(ValidationError::EmptyName)
                <==> all_space(raw@),
            r == Err::<SubscriberName, ValidationError>(ValidationError::NameTooLong)
                <==> !all_space(raw@) && raw@.len() > MAX_NAME_LEN,
            r == Err::<SubscriberName, ValidationError>(ValidationError::ForbiddenNameByte)
                <==> !all_space(raw@) && raw@.len() <= MAX_NAME_LEN
                    && has_forbidden_name_byte(raw@),
    {
        let n = raw.len();
        let mut only_space = true;
        let mut i: usize = 0;
        while i < n
            invariant
                n == raw@.len(),
                i <= n,
                only_space <==> (forall|j: int| 0 <= j < i ==> is_space_byte(raw@[j])),
            decreases n - i,
        {
            if !is_space(raw[i]) {
                only_space = false;
            }
            i = i + 1;
        }
        if only_space {
            return Err(ValidationError::EmptyName);
        }
        if n > MAX_NAME_LEN {
            return Err(ValidationError::NameTooLong);
        }
        let mut i: usize = 0;
        while i < n
            invariant
                n == raw@.len(),
                i <= n,
                !all_space(raw@),
                n <= MAX_NAME_LEN,
                forall|j: int| 0 <= j < i ==> !is_forbidden_name_byte(raw@[j]),
            decreases n - i,
        {
            if is_forbidden(raw[i]) {
                return Err(ValidationError::ForbiddenNameByte);
            }
            i = i + 1;
        }
        Ok(SubscriberName { bytes: raw })
    }

    pub fn as_bytes(&self) -> (r: &[u8])
        ensures
            r@ == self@,
    {
        self.bytes.as_slice()
    }

}

impl Clone for SubscriberName {
    /// A clone carries the same validated bytes.
    fn clone(&self) -> (r: Self)
        ensures
            r@ == self@,
    {
        proof {
            use_type_invariant(self);
        }
        SubscriberName { bytes: vstd::slice::slice_to_vec(self.bytes.as_slice()) }
    }
}

/// A subscriber email that has passed validation; construction through
/// `parse` is the only validation point.
pub struct SubscriberEmail {
    bytes: Vec<u8>,
}

impl View for SubscriberEmail {
    type V = Seq<u8>;

    closed spec fn view(&self) -> Seq<u8> {
        self.bytes@
    }
}

impl SubscriberEmail {
    /// Every instance in the system satisfies the email grammar.
    #[verifier::type_invariant]
    pub closed spec fn inv(self) -> bool {
        valid_email(self.bytes@)
    }

    /// Validate a raw email; the value object keeps the bytes unchanged.
    pub fn parse(raw: Vec<u8>) -> (r: Result<SubscriberEmail, ValidationError>)
        ensures
            r matches Ok(e) ==> e@ == raw@,
            r is Ok <==> valid_email(raw@),
            r is Err ==> r == Err::<SubscriberEmail, ValidationError>(
                ValidationError::InvalidEmail),
    {
        let n = raw.len();
        let mut has_at = false;
        let mut multi_at = false;
        let mut at_pos: usize = 0;
        let mut dot_after_at = false;
        let mut space_seen = false;
        let mut i: usize = 0;
        while i < n
            invariant
                n == raw@.len(),
                i <= n,
                space_seen <==> (exists|j: int| 0 <= j < i && is_space_byte(raw@[j])),
                !has_at ==> (forall|j: int| 0 <= j < i ==> raw@[j] != AT_SIGN),
                has_at ==> at_pos < i && raw@[at_pos as int] == AT_SIGN,
                has_at && !multi_at ==> (forall|j: int|
                    0 <= j < i && j != at_pos ==> raw@[j] != AT_SIGN),
                multi_at ==> has_at,
                !has_at ==> !dot_after_at,
                multi_at ==> (exists|a: int, b: int|
                    0 <= a < b < i && raw@[a] == AT_SIGN && raw@[b] == AT_SIGN),
                has_at && !multi_at ==> (dot_after_at <==> (exists|j: int|
                    at_pos < j < i && raw@[j] == DOT)),
            decreases n - i,
        {
            let b = raw[i];
            if is_space(b) {
                space_seen = true;
            }
            if b == AT_SIGN {
                if has_at {
                    multi_at = true;
                } else {
                    has_at = true;
                    at_pos = i;
                }
            }
            if b == DOT && has_at && !multi_at && i > at_pos {
                dot_after_at = true;
            }
            i = i + 1;
        }
        if space_seen {
            return Err(ValidationError::InvalidEmail);
        }
        if !has_at {
            assert(forall|k: int| !email_shape_at(raw@, k)) by {
                assert forall|k: int| !email_shape_at(raw@, k) by {
                    if email_shape_at(raw@, k) {
                        assert(raw@[k] == AT_SIGN);
                    }
                }
            }
            return Err(ValidationError::InvalidEmail);
        }
        if multi_at {
            proof {
                let (a, b) = choose|a: int, b: int|
                    0 <= a < b < n && raw@[a] == AT_SIGN && raw@[b] == AT_SIGN;
                assert forall|k: int| !email_shape_at(raw@, k) by {
                    if email_shape_at(raw@, k) {
                        if a != k {
                            assert(raw@[a] != AT_SIGN);
                        } else {
                            assert(raw@[b] != AT_SIGN);
                        }
                    }
                }
            }
            return Err(ValidationError::InvalidEmail);
        }
        if at_pos >= 1 && at_pos + 1 < n && dot_after_at {
            assert(email_shape_at(raw@, at_pos as int));
            Ok(SubscriberEmail { bytes: raw })
        } else {
            proof {
                assert forall|k: int| !email_shape_at(raw@, k) by {
                    if email_shape_at(raw@, k) {
                        assert(raw@[k] == AT_SIGN);
                        assert(k == at_pos as int);
                    }
                }
            }
            Err(ValidationError::InvalidEmail)
        }
    }

    pub fn as_bytes(&self) -> (r: &[u8])
        ensures
            r@ == self@,
    {
        self.bytes.as_slice()
    }

}

impl Clone for SubscriberEmail {
    /// A clone carries the same validated bytes.
    fn clone(&self) -> (r: Self)
        ensures
            r@ == self@,
    {
        proof {
            use_type_invariant(self);
        }
        SubscriberEmail { bytes: vstd::slice::slice_to_vec(self.bytes.as_slice()) }
    }
}

/// The only form in which the rest of the system references subscriber
/// identity before persistence: both fields have passed validation.
pub struct NewSubscriber {
    pub email: SubscriberEmail,
    pub name: SubscriberName,
}

/// A byte is an ASCII whitespace byte.
pub fn is_space(b: u8) -> (r: bool)
    ensures
        r == is_space_byte(b),
{
    b == SP || b == TAB || b == LF || b == CR
}

/// A byte is forbidden inside a subscriber name.
pub fn is_forbidden(b: u8) -> (r: bool)
    ensures
        r == is_forbidden_name_byte(b),
{
    b == 0x2f || b == 0x28 || b == 0x29 || b == 0x22 || b == 0x3c || b == 0x3e || b == 0x5c
        || b == 0x7b || b == 0x7d || b < 0x20 || b == 0x7f
}

/// Two byte strings hold the same bytes.
pub fn bytes_eq(a: &[u8], b: &[u8]) -> (r: bool)
    ensures
        r <==> a@ == b@,
{
    let n = a.len();
    if n != b.len() {
        return false;
    }
    let mut i: usize = 0;
    while i < n
        invariant
            n == a@.len() == b@.len(),
            i <= n,
            forall|j: int| 0 <= j < i ==> a@[j] == b@[j],
        decreases n - i,
    {
        if a[i] != b[i] {
            return false;
        }
        i = i + 1;
    }
    proof {
        assert(a@ =~= b@);
    }
    true
}

/// Every byte string accepted by name validation is non-empty, within
/// `MAX_NAME_LEN`, and free of forbidden bytes; every rejected string is
/// all-whitespace, too long, or holds a forbidden byte.
pub proof fn lemma_name_validation_bounds(s: Seq<u8>)
    ensures
        valid_name(s) ==> s.len() > 0 && s.len() <= MAX_NAME_LEN && (forall|i: int|
            0 <= i < s.len() ==> !is_forbidden_name_byte(s[i])),
        !valid_name(s) ==> all_space(s) || s.len() > MAX_NAME_LEN || has_forbidden_name_byte(s),
{
}

} // verus!
