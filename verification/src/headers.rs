//! The header blocks of a SWIFT message: basic header (block 1),
//! application header (block 2), user header (block 3) and trailer (block 5).

use vstd::prelude::*;
use crate::errors::ParseError;
use crate::text::{find_exec, find_from, from_chars, slice_chars, string_chars, to_chars};

verus! {

/// The characters of `s` from `a` to `b`, both cut to the length of `s`.
pub open spec fn clip(s: Seq<char>, a: int, b: int) -> Seq<char> {
    let e = if b < s.len() {
        b
    } else {
        s.len() as int
    };
    let st = if a < e {
        a
    } else {
        e
    };
    s.subrange(st, e)
}

/// `clip` in executable form.
pub fn clip_chars(s: &Vec<char>, a: usize, b: usize) -> (r: Vec<char>)
    ensures
        r@ == clip(s@, a as int, b as int),
{
    let e = if b < s.len() {
        b
    } else {
        s.len()
    };
    let st = if a < e {
        a
    } else {
        e
    };
    slice_chars(s, st, e)
}

/// Basic Header (block 1): application id, service id, logical terminal
/// address, session and sequence numbers.
#[derive(Debug, Clone)]
pub struct BasicHeader {
    pub application_id: String,
    pub service_id: String,
    pub logical_terminal: String,
    pub session_number: String,
    pub sequence_number: String,
}

impl BasicHeader {
    /// The header that `parse` reads from the content of block 1.
    pub open spec fn read(b: Seq<char>) -> (Seq<char>, Seq<char>, Seq<char>, Seq<char>, Seq<char>) {
        (clip(b, 0, 1), clip(b, 1, 3), clip(b, 3, 15), clip(b, 15, 19), clip(b, 19, 25))
    }

    /// The parts of the header.
    pub open spec fn parts(&self) -> (Seq<char>, Seq<char>, Seq<char>, Seq<char>, Seq<char>) {
        (
            self.application_id@,
            self.service_id@,
            self.logical_terminal@,
            self.session_number@,
            self.sequence_number@,
        )
    }

    /// Parse the content of block 1 by position; missing positions are empty.
    pub fn parse(block1: &str) -> (r: Result<BasicHeader, ParseError>)
        ensures
            r matches Ok(h) && h.parts() == Self::read(block1@),
    {
        let b = to_chars(block1);
        Ok(
            BasicHeader {
                application_id: from_chars(&clip_chars(&b, 0, 1)),
                service_id: from_chars(&clip_chars(&b, 1, 3)),
                logical_terminal: from_chars(&clip_chars(&b, 3, 15)),
                session_number: from_chars(&clip_chars(&b, 15, 19)),
                sequence_number: from_chars(&clip_chars(&b, 19, 25)),
            },
        )
    }

    /// The header in block form.
    pub fn to_block_string(&self) -> (s: String)
        ensures
            s@ == self.application_id@ + self.service_id@ + self.logical_terminal@
                + self.session_number@ + self.sequence_number@,
    {
        let mut v = string_chars(&self.application_id);
        crate::text::append_chars(&mut v, &string_chars(&self.service_id));
        crate::text::append_chars(&mut v, &string_chars(&self.logical_terminal));
        crate::text::append_chars(&mut v, &string_chars(&self.session_number));
        crate::text::append_chars(&mut v, &string_chars(&self.sequence_number));
        from_chars(&v)
    }
}

/// Application Header (block 2): direction, message type, and the rest of
/// the block (destination, priority, delivery monitoring, obsolescence).
#[derive(Debug, Clone)]
pub struct ApplicationHeader {
    pub direction: String,
    pub message_type: String,
    pub destination_address: String,
    pub priority: String,
    pub delivery_monitoring: Option<String>,
    pub rest: String,
}

impl ApplicationHeader {
    /// The content of block 2 is long enough to name a message type.
    pub open spec fn readable(b: Seq<char>) -> bool {
        b.len() >= 4
    }

    /// Parse the content of block 2: the first character is the direction,
    /// the next three the message type; an input (`I`) header then holds
    /// the destination address, the priority and the delivery monitoring.
    pub fn parse(block2: &str) -> (r: Result<ApplicationHeader, ParseError>)
        ensures
            Self::readable(block2@) ==> (r matches Ok(h) && h.direction@ == block2@.subrange(0, 1)
                && h.message_type@ == block2@.subrange(1, 4) && h.destination_address@ == clip(
                block2@,
                4,
                16,
            ) && h.priority@ == clip(block2@, 16, 17) && h.rest@ == block2@.subrange(
                4,
                block2@.len() as int,
            ) && (h.delivery_monitoring is Some <==> block2@.len() >= 18) && (
            h.delivery_monitoring matches Some(d) ==> d@ == block2@.subrange(17, 18))),
            !Self::readable(block2@) ==> (r matches Err(ParseError::InvalidBlockStructure { message })
                && message@ == "Application header too short"@),
    {
        let b = to_chars(block2);
        if b.len() < 4 {
            return Err(
                ParseError::InvalidBlockStructure {
                    message: "Application header too short".to_string(),
                },
            );
        }
        let delivery_monitoring = if b.len() >= 18 {
            Some(from_chars(&slice_chars(&b, 17, 18)))
        } else {
            None
        };
        Ok(
            ApplicationHeader {
                direction: from_chars(&slice_chars(&b, 0, 1)),
                message_type: from_chars(&slice_chars(&b, 1, 4)),
                destination_address: from_chars(&clip_chars(&b, 4, 16)),
                priority: from_chars(&clip_chars(&b, 16, 17)),
                delivery_monitoring,
                rest: from_chars(&slice_chars(&b, 4, b.len())),
            },
        )
    }

    /// The message type, e.g. `103`.
    pub fn message_type(&self) -> (s: &str)
        ensures
            s@ == self.message_type@,
    {
        self.message_type.as_str()
    }

    /// The header in block form.
    pub fn to_block_string(&self) -> (s: String)
        ensures
            s@ == self.direction@ + self.message_type@ + self.rest@,
    {
        let mut v = string_chars(&self.direction);
        crate::text::append_chars(&mut v, &string_chars(&self.message_type));
        crate::text::append_chars(&mut v, &string_chars(&self.rest));
        from_chars(&v)
    }
}

/// The content of the tag block `{108:...}` of a user header, if any.
pub open spec fn tag_value(b: Seq<char>, open: Seq<char>) -> Option<Seq<char>> {
    match find_from(b, open, 0) {
        Some(k) => match find_from(b, seq!['}'], k + open.len()) {
            Some(e) => Some(b.subrange(k + open.len(), e)),
            None => None,
        },
        None => None,
    }
}

/// The message user reference of block 3: the value of tag 108.
pub open spec fn mur_of(b: Seq<char>) -> Option<Seq<char>> {
    tag_value(b, "{108:"@)
}

/// The validation flag of block 3: the value of tag 119.
pub open spec fn validation_flag_of(b: Seq<char>) -> Option<Seq<char>> {
    tag_value(b, "{119:"@)
}

/// The value of the tag that `open` opens in `b`, up to the next `}`.
fn find_tag_value(b: &Vec<char>, open: &str) -> (r: Option<String>)
    ensures
        match tag_value(b@, open@) {
            Some(v) => r matches Some(x) && x@ == v,
            None => r is None,
        },
{
    let tag = to_chars(open);
    match find_exec(b, &tag, 0) {
        Some(k) => {
            proof {
                crate::text::lemma_find_from(b@, open@, 0);
                assert(b@.len() == b.len());
            }
            let from = k + tag.len();
            match crate::text::find_char(b, '}', from) {
                Some(e) => {
                    proof {
                        crate::text::lemma_find_from(b@, seq!['}'], from as int);
                    }
                    Some(from_chars(&slice_chars(b, from, e)))
                },
                None => None,
            }
        },
        None => None,
    }
}

/// User Header (block 3): its tag blocks, the message user reference of
/// tag 108 and the validation flag of tag 119.
#[derive(Debug, Clone)]
pub struct UserHeader {
    pub raw: String,
    pub message_user_reference: Option<String>,
    pub validation_flag: Option<String>,
}

impl UserHeader {
    /// Parse the content of block 3.
    pub fn parse(block3: &str) -> (r: Result<UserHeader, ParseError>)
        ensures
            r matches Ok(h) && h.raw@ == block3@ && match mur_of(block3@) {
                Some(m) => h.message_user_reference matches Some(x) && x@ == m,
                None => h.message_user_reference is None,
            } && match validation_flag_of(block3@) {
                Some(f) => h.validation_flag matches Some(x) && x@ == f,
                None => h.validation_flag is None,
            },
    {
        let b = to_chars(block3);
        let mur = find_tag_value(&b, "{108:");
        let flag = find_tag_value(&b, "{119:");
        Ok(UserHeader { raw: block3.to_string(), message_user_reference: mur, validation_flag: flag })
    }

    /// The header in block form.
    pub fn to_block_string(&self) -> (s: String)
        ensures
            s@ == self.raw@,
    {
        self.raw.clone()
    }
}

/// Trailer (block 5), kept as written.
#[derive(Debug, Clone)]
pub struct Trailer {
    pub raw: String,
}

impl Trailer {
    /// Parse the content of block 5.
    pub fn parse(block5: &str) -> (r: Result<Trailer, ParseError>)
        ensures
            r matches Ok(t) && t.raw@ == block5@,
    {
        Ok(Trailer { raw: block5.to_string() })
    }

    /// The trailer in block form.
    pub fn to_block_string(&self) -> (s: String)
        ensures
            s@ == self.raw@,
    {
        self.raw.clone()
    }
}

} // verus!
