//! A message of any supported type, parsed with the type read from its
//! application header.

use vstd::prelude::*;
use crate::errors::ParseError;
use crate::headers::ApplicationHeader;
use crate::messages::{MT101, MT103, MT104, MT107, MT110, MT111, MT112, MT190, MT191, MT192, MT196, MT199, MT200, MT202, MT204, MT205, MT210, MT290, MT291, MT292, MT296, MT299, MT900, MT910, MT920, MT935, MT940, MT941, MT942, MT950};
use crate::parser::swift_parser::{block_or_empty, message_parsed, SwiftParser};
use crate::swift_message::SwiftMessage;
use crate::text::{chars_eq, string_chars, to_chars};

verus! {

/// A parsed message of one of the supported types.
#[derive(Debug, Clone)]
pub enum ParsedSwiftMessage {
    MT101(Box<SwiftMessage<MT101>>),
    MT103(Box<SwiftMessage<MT103>>),
    MT104(Box<SwiftMessage<MT104>>),
    MT107(Box<SwiftMessage<MT107>>),
    MT110(Box<SwiftMessage<MT110>>),
    MT111(Box<SwiftMessage<MT111>>),
    MT112(Box<SwiftMessage<MT112>>),
    MT190(Box<SwiftMessage<MT190>>),
    MT191(Box<SwiftMessage<MT191>>),
    MT192(Box<SwiftMessage<MT192>>),
    MT196(Box<SwiftMessage<MT196>>),
    MT199(Box<SwiftMessage<MT199>>),
    MT200(Box<SwiftMessage<MT200>>),
    MT202(Box<SwiftMessage<MT202>>),
    MT204(Box<SwiftMessage<MT204>>),
    MT205(Box<SwiftMessage<MT205>>),
    MT210(Box<SwiftMessage<MT210>>),
    MT290(Box<SwiftMessage<MT290>>),
    MT291(Box<SwiftMessage<MT291>>),
    MT292(Box<SwiftMessage<MT292>>),
    MT296(Box<SwiftMessage<MT296>>),
    MT299(Box<SwiftMessage<MT299>>),
    MT900(Box<SwiftMessage<MT900>>),
    MT910(Box<SwiftMessage<MT910>>),
    MT920(Box<SwiftMessage<MT920>>),
    MT935(Box<SwiftMessage<MT935>>),
    MT940(Box<SwiftMessage<MT940>>),
    MT941(Box<SwiftMessage<MT941>>),
    MT942(Box<SwiftMessage<MT942>>),
    MT950(Box<SwiftMessage<MT950>>),
}

impl ParsedSwiftMessage {
    /// The message type of the parsed message.
    pub open spec fn type_view(&self) -> Seq<char> {
        match self {
            ParsedSwiftMessage::MT101(m) => m.message_type@,
            ParsedSwiftMessage::MT103(m) => m.message_type@,
            ParsedSwiftMessage::MT104(m) => m.message_type@,
            ParsedSwiftMessage::MT107(m) => m.message_type@,
            ParsedSwiftMessage::MT110(m) => m.message_type@,
            ParsedSwiftMessage::MT111(m) => m.message_type@,
            ParsedSwiftMessage::MT112(m) => m.message_type@,
            ParsedSwiftMessage::MT190(m) => m.message_type@,
            ParsedSwiftMessage::MT191(m) => m.message_type@,
            ParsedSwiftMessage::MT192(m) => m.message_type@,
            ParsedSwiftMessage::MT196(m) => m.message_type@,
            ParsedSwiftMessage::MT199(m) => m.message_type@,
            ParsedSwiftMessage::MT200(m) => m.message_type@,
            ParsedSwiftMessage::MT202(m) => m.message_type@,
            ParsedSwiftMessage::MT204(m) => m.message_type@,
            ParsedSwiftMessage::MT205(m) => m.message_type@,
            ParsedSwiftMessage::MT210(m) => m.message_type@,
            ParsedSwiftMessage::MT290(m) => m.message_type@,
            ParsedSwiftMessage::MT291(m) => m.message_type@,
            ParsedSwiftMessage::MT292(m) => m.message_type@,
            ParsedSwiftMessage::MT296(m) => m.message_type@,
            ParsedSwiftMessage::MT299(m) => m.message_type@,
            ParsedSwiftMessage::MT900(m) => m.message_type@,
            ParsedSwiftMessage::MT910(m) => m.message_type@,
            ParsedSwiftMessage::MT920(m) => m.message_type@,
            ParsedSwiftMessage::MT935(m) => m.message_type@,
            ParsedSwiftMessage::MT940(m) => m.message_type@,
            ParsedSwiftMessage::MT941(m) => m.message_type@,
            ParsedSwiftMessage::MT942(m) => m.message_type@,
            ParsedSwiftMessage::MT950(m) => m.message_type@,
        }
    }

    /// Get the message type as a string
    pub fn message_type(&self) -> (s: &str)
        ensures
            s@ == self.type_view(),
    {
        match self {
            ParsedSwiftMessage::MT101(m) => m.message_type.as_str(),
            ParsedSwiftMessage::MT103(m) => m.message_type.as_str(),
            ParsedSwiftMessage::MT104(m) => m.message_type.as_str(),
            ParsedSwiftMessage::MT107(m) => m.message_type.as_str(),
            ParsedSwiftMessage::MT110(m) => m.message_type.as_str(),
            ParsedSwiftMessage::MT111(m) => m.message_type.as_str(),
            ParsedSwiftMessage::MT112(m) => m.message_type.as_str(),
            ParsedSwiftMessage::MT190(m) => m.message_type.as_str(),
            ParsedSwiftMessage::MT191(m) => m.message_type.as_str(),
            ParsedSwiftMessage::MT192(m) => m.message_type.as_str(),
            ParsedSwiftMessage::MT196(m) => m.message_type.as_str(),
            ParsedSwiftMessage::MT199(m) => m.message_type.as_str(),
            ParsedSwiftMessage::MT200(m) => m.message_type.as_str(),
            ParsedSwiftMessage::MT202(m) => m.message_type.as_str(),
            ParsedSwiftMessage::MT204(m) => m.message_type.as_str(),
            ParsedSwiftMessage::MT205(m) => m.message_type.as_str(),
            ParsedSwiftMessage::MT210(m) => m.message_type.as_str(),
            ParsedSwiftMessage::MT290(m) => m.message_type.as_str(),
            ParsedSwiftMessage::MT291(m) => m.message_type.as_str(),
            ParsedSwiftMessage::MT292(m) => m.message_type.as_str(),
            ParsedSwiftMessage::MT296(m) => m.message_type.as_str(),
            ParsedSwiftMessage::MT299(m) => m.message_type.as_str(),
            ParsedSwiftMessage::MT900(m) => m.message_type.as_str(),
            ParsedSwiftMessage::MT910(m) => m.message_type.as_str(),
            ParsedSwiftMessage::MT920(m) => m.message_type.as_str(),
            ParsedSwiftMessage::MT935(m) => m.message_type.as_str(),
            ParsedSwiftMessage::MT940(m) => m.message_type.as_str(),
            ParsedSwiftMessage::MT941(m) => m.message_type.as_str(),
            ParsedSwiftMessage::MT942(m) => m.message_type.as_str(),
            ParsedSwiftMessage::MT950(m) => m.message_type.as_str(),
        }
    }

    /// The message, if it is an MT101.
    pub fn as_mt101(&self) -> (r: Option<&SwiftMessage<MT101>>)
        ensures
            match self {
                ParsedSwiftMessage::MT101(m) => r == Some(&**m),
                _ => r is None,
            },
    {
        match self {
            ParsedSwiftMessage::MT101(m) => Some(&**m),
            _ => None,
        }
    }

    /// The message, if it is an MT101.
    pub fn into_mt101(self) -> (r: Option<SwiftMessage<MT101>>)
        ensures
            match self {
                ParsedSwiftMessage::MT101(m) => r == Some(*m),
                _ => r is None,
            },
    {
        match self {
            ParsedSwiftMessage::MT101(m) => Some(*m),
            _ => None,
        }
    }

    /// The message, if it is an MT103.
    pub fn as_mt103(&self) -> (r: Option<&SwiftMessage<MT103>>)
        ensures
            match self {
                ParsedSwiftMessage::MT103(m) => r == Some(&**m),
                _ => r is None,
            },
    {
        match self {
            ParsedSwiftMessage::MT103(m) => Some(&**m),
            _ => None,
        }
    }

    /// The message, if it is an MT103.
    pub fn into_mt103(self) -> (r: Option<SwiftMessage<MT103>>)
        ensures
            match self {
                ParsedSwiftMessage::MT103(m) => r == Some(*m),
                _ => r is None,
            },
    {
        match self {
            ParsedSwiftMessage::MT103(m) => Some(*m),
            _ => None,
        }
    }

    /// The message, if it is an MT104.
    pub fn as_mt104(&self) -> (r: Option<&SwiftMessage<MT104>>)
        ensures
            match self {
                ParsedSwiftMessage::MT104(m) => r == Some(&**m),
                _ => r is None,
            },
    {
        match self {
            ParsedSwiftMessage::MT104(m) => Some(&**m),
            _ => None,
        }
    }

    /// The message, if it is an MT104.
    pub fn into_mt104(self) -> (r: Option<SwiftMessage<MT104>>)
        ensures
            match self {
                ParsedSwiftMessage::MT104(m) => r == Some(*m),
                _ => r is None,
            },
    {
        match self {
            ParsedSwiftMessage::MT104(m) => Some(*m),
            _ => None,
        }
    }

    /// The message, if it is an MT107.
    pub fn as_mt107(&self) -> (r: Option<&SwiftMessage<MT107>>)
        ensures
            match self {
                ParsedSwiftMessage::MT107(m) => r == Some(&**m),
                _ => r is None,
            },
    {
        match self {
            ParsedSwiftMessage::MT107(m) => Some(&**m),
            _ => None,
        }
    }

    /// The message, if it is an MT107.
    pub fn into_mt107(self) -> (r: Option<SwiftMessage<MT107>>)
        ensures
            match self {
                ParsedSwiftMessage::MT107(m) => r == Some(*m),
                _ => r is None,
            },
    {
        match self {
            ParsedSwiftMessage::MT107(m) => Some(*m),
            _ => None,
        }
    }

    /// The message, if it is an MT110.
    pub fn as_mt110(&self) -> (r: Option<&SwiftMessage<MT110>>)
        ensures
            match self {
                ParsedSwiftMessage::MT110(m) => r == Some(&**m),
                _ => r is None,
            },
    {
        match self {
            ParsedSwiftMessage::MT110(m) => Some(&**m),
            _ => None,
        }
    }

    /// The message, if it is an MT110.
    pub fn into_mt110(self) -> (r: Option<SwiftMessage<MT110>>)
        ensures
            match self {
                ParsedSwiftMessage::MT110(m) => r == Some(*m),
                _ => r is None,
            },
    {
        match self {
            ParsedSwiftMessage::MT110(m) => Some(*m),
            _ => None,
        }
    }

    /// The message, if it is an MT111.
    pub fn as_mt111(&self) -> (r: Option<&SwiftMessage<MT111>>)
        ensures
            match self {
                ParsedSwiftMessage::MT111(m) => r == Some(&**m),
                _ => r is None,
            },
    {
        match self {
            ParsedSwiftMessage::MT111(m) => Some(&**m),
            _ => None,
        }
    }

    /// The message, if it is an MT111.
    pub fn into_mt111(self) -> (r: Option<SwiftMessage<MT111>>)
        ensures
            match self {
                ParsedSwiftMessage::MT111(m) => r == Some(*m),
                _ => r is None,
            },
    {
        match self {
            ParsedSwiftMessage::MT111(m) => Some(*m),
            _ => None,
        }
    }

    /// The message, if it is an MT112.
    pub fn as_mt112(&self) -> (r: Option<&SwiftMessage<MT112>>)
        ensures
            match self {
                ParsedSwiftMessage::MT112(m) => r == Some(&**m),
                _ => r is None,
            },
    {
        match self {
            ParsedSwiftMessage::MT112(m) => Some(&**m),
            _ => None,
        }
    }

    /// The message, if it is an MT112.
    pub fn into_mt112(self) -> (r: Option<SwiftMessage<MT112>>)
        ensures
            match self {
                ParsedSwiftMessage::MT112(m) => r == Some(*m),
                _ => r is None,
            },
    {
        match self {
            ParsedSwiftMessage::MT112(m) => Some(*m),
            _ => None,
        }
    }

    /// The message, if it is an MT190.
    pub fn as_mt190(&self) -> (r: Option<&SwiftMessage<MT190>>)
        ensures
            match self {
                ParsedSwiftMessage::MT190(m) => r == Some(&**m),
                _ => r is None,
            },
    {
        match self {
            ParsedSwiftMessage::MT190(m) => Some(&**m),
            _ => None,
        }
    }

    /// The message, if it is an MT190.
    pub fn into_mt190(self) -> (r: Option<SwiftMessage<MT190>>)
        ensures
            match self {
                ParsedSwiftMessage::MT190(m) => r == Some(*m),
                _ => r is None,
            },
    {
        match self {
            ParsedSwiftMessage::MT190(m) => Some(*m),
            _ => None,
        }
    }

    /// The message, if it is an MT191.
    pub fn as_mt191(&self) -> (r: Option<&SwiftMessage<MT191>>)
        ensures
            match self {
                ParsedSwiftMessage::MT191(m) => r == Some(&**m),
                _ => r is None,
            },
    {
        match self {
            ParsedSwiftMessage::MT191(m) => Some(&**m),
            _ => None,
        }
    }

    /// The message, if it is an MT191.
    pub fn into_mt191(self) -> (r: Option<SwiftMessage<MT191>>)
        ensures
            match self {
                ParsedSwiftMessage::MT191(m) => r == Some(*m),
                _ => r is None,
            },
    {
        match self {
            ParsedSwiftMessage::MT191(m) => Some(*m),
            _ => None,
        }
    }

    /// The message, if it is an MT192.
    pub fn as_mt192(&self) -> (r: Option<&SwiftMessage<MT192>>)
        ensures
            match self {
                ParsedSwiftMessage::MT192(m) => r == Some(&**m),
                _ => r is None,
            },
    {
        match self {
            ParsedSwiftMessage::MT192(m) => Some(&**m),
            _ => None,
        }
    }

    /// The message, if it is an MT192.
    pub fn into_mt192(self) -> (r: Option<SwiftMessage<MT192>>)
        ensures
            match self {
                ParsedSwiftMessage::MT192(m) => r == Some(*m),
                _ => r is None,
            },
    {
        match self {
            ParsedSwiftMessage::MT192(m) => Some(*m),
            _ => None,
        }
    }

    /// The message, if it is an MT196.
    pub fn as_mt196(&self) -> (r: Option<&SwiftMessage<MT196>>)
        ensures
            match self {
                ParsedSwiftMessage::MT196(m) => r == Some(&**m),
                _ => r is None,
            },
    {
        match self {
            ParsedSwiftMessage::MT196(m) => Some(&**m),
            _ => None,
        }
    }

    /// The message, if it is an MT196.
    pub fn into_mt196(self) -> (r: Option<SwiftMessage<MT196>>)
        ensures
            match self {
                ParsedSwiftMessage::MT196(m) => r == Some(*m),
                _ => r is None,
            },
    {
        match self {
            ParsedSwiftMessage::MT196(m) => Some(*m),
            _ => None,
        }
    }

    /// The message, if it is an MT199.
    pub fn as_mt199(&self) -> (r: Option<&SwiftMessage<MT199>>)
        ensures
            match self {
                ParsedSwiftMessage::MT199(m) => r == Some(&**m),
                _ => r is None,
            },
    {
        match self {
            ParsedSwiftMessage::MT199(m) => Some(&**m),
            _ => None,
        }
    }

    /// The message, if it is an MT199.
    pub fn into_mt199(self) -> (r: Option<SwiftMessage<MT199>>)
        ensures
            match self {
                ParsedSwiftMessage::MT199(m) => r == Some(*m),
                _ => r is None,
            },
    {
        match self {
            ParsedSwiftMessage::MT199(m) => Some(*m),
            _ => None,
        }
    }

    /// The message, if it is an MT200.
    pub fn as_mt200(&self) -> (r: Option<&SwiftMessage<MT200>>)
        ensures
            match self {
                ParsedSwiftMessage::MT200(m) => r == Some(&**m),
                _ => r is None,
            },
    {
        match self {
            ParsedSwiftMessage::MT200(m) => Some(&**m),
            _ => None,
        }
    }

    /// The message, if it is an MT200.
    pub fn into_mt200(self) -> (r: Option<SwiftMessage<MT200>>)
        ensures
            match self {
                ParsedSwiftMessage::MT200(m) => r == Some(*m),
                _ => r is None,
            },
    {
        match self {
            ParsedSwiftMessage::MT200(m) => Some(*m),
            _ => None,
        }
    }

    /// The message, if it is an MT202.
    pub fn as_mt202(&self) -> (r: Option<&SwiftMessage<MT202>>)
        ensures
            match self {
                ParsedSwiftMessage::MT202(m) => r == Some(&**m),
                _ => r is None,
            },
    {
        match self {
            ParsedSwiftMessage::MT202(m) => Some(&**m),
            _ => None,
        }
    }

    /// The message, if it is an MT202.
    pub fn into_mt202(self) -> (r: Option<SwiftMessage<MT202>>)
        ensures
            match self {
                ParsedSwiftMessage::MT202(m) => r == Some(*m),
                _ => r is None,
            },
    {
        match self {
            ParsedSwiftMessage::MT202(m) => Some(*m),
            _ => None,
        }
    }

    /// The message, if it is an MT204.
    pub fn as_mt204(&self) -> (r: Option<&SwiftMessage<MT204>>)
        ensures
            match self {
                ParsedSwiftMessage::MT204(m) => r == Some(&**m),
                _ => r is None,
            },
    {
        match self {
            ParsedSwiftMessage::MT204(m) => Some(&**m),
            _ => None,
        }
    }

    /// The message, if it is an MT204.
    pub fn into_mt204(self) -> (r: Option<SwiftMessage<MT204>>)
        ensures
            match self {
                ParsedSwiftMessage::MT204(m) => r == Some(*m),
                _ => r is None,
            },
    {
        match self {
            ParsedSwiftMessage::MT204(m) => Some(*m),
            _ => None,
        }
    }

    /// The message, if it is an MT205.
    pub fn as_mt205(&self) -> (r: Option<&SwiftMessage<MT205>>)
        ensures
            match self {
                ParsedSwiftMessage::MT205(m) => r == Some(&**m),
                _ => r is None,
            },
    {
        match self {
            ParsedSwiftMessage::MT205(m) => Some(&**m),
            _ => None,
        }
    }

    /// The message, if it is an MT205.
    pub fn into_mt205(self) -> (r: Option<SwiftMessage<MT205>>)
        ensures
            match self {
                ParsedSwiftMessage::MT205(m) => r == Some(*m),
                _ => r is None,
            },
    {
        match self {
            ParsedSwiftMessage::MT205(m) => Some(*m),
            _ => None,
        }
    }

    /// The message, if it is an MT210.
    pub fn as_mt210(&self) -> (r: Option<&SwiftMessage<MT210>>)
        ensures
            match self {
                ParsedSwiftMessage::MT210(m) => r == Some(&**m),
                _ => r is None,
            },
    {
        match self {
            ParsedSwiftMessage::MT210(m) => Some(&**m),
            _ => None,
        }
    }

    /// The message, if it is an MT210.
    pub fn into_mt210(self) -> (r: Option<SwiftMessage<MT210>>)
        ensures
            match self {
                ParsedSwiftMessage::MT210(m) => r == Some(*m),
                _ => r is None,
            },
    {
        match self {
            ParsedSwiftMessage::MT210(m) => Some(*m),
            _ => None,
        }
    }

    /// The message, if it is an MT290.
    pub fn as_mt290(&self) -> (r: Option<&SwiftMessage<MT290>>)
        ensures
            match self {
                ParsedSwiftMessage::MT290(m) => r == Some(&**m),
                _ => r is None,
            },
    {
        match self {
            ParsedSwiftMessage::MT290(m) => Some(&**m),
            _ => None,
        }
    }

    /// The message, if it is an MT290.
    pub fn into_mt290(self) -> (r: Option<SwiftMessage<MT290>>)
        ensures
            match self {
                ParsedSwiftMessage::MT290(m) => r == Some(*m),
                _ => r is None,
            },
    {
        match self {
            ParsedSwiftMessage::MT290(m) => Some(*m),
            _ => None,
        }
    }

    /// The message, if it is an MT291.
    pub fn as_mt291(&self) -> (r: Option<&SwiftMessage<MT291>>)
        ensures
            match self {
                ParsedSwiftMessage::MT291(m) => r == Some(&**m),
                _ => r is None,
            },
    {
        match self {
            ParsedSwiftMessage::MT291(m) => Some(&**m),
            _ => None,
        }
    }

    /// The message, if it is an MT291.
    pub fn into_mt291(self) -> (r: Option<SwiftMessage<MT291>>)
        ensures
            match self {
                ParsedSwiftMessage::MT291(m) => r == Some(*m),
                _ => r is None,
            },
    {
        match self {
            ParsedSwiftMessage::MT291(m) => Some(*m),
            _ => None,
        }
    }

    /// The message, if it is an MT292.
    pub fn as_mt292(&self) -> (r: Option<&SwiftMessage<MT292>>)
        ensures
            match self {
                ParsedSwiftMessage::MT292(m) => r == Some(&**m),
                _ => r is None,
            },
    {
        match self {
            ParsedSwiftMessage::MT292(m) => Some(&**m),
            _ => None,
        }
    }

    /// The message, if it is an MT292.
    pub fn into_mt292(self) -> (r: Option<SwiftMessage<MT292>>)
        ensures
            match self {
                ParsedSwiftMessage::MT292(m) => r == Some(*m),
                _ => r is None,
            },
    {
        match self {
            ParsedSwiftMessage::MT292(m) => Some(*m),
            _ => None,
        }
    }

    /// The message, if it is an MT296.
    pub fn as_mt296(&self) -> (r: Option<&SwiftMessage<MT296>>)
        ensures
            match self {
                ParsedSwiftMessage::MT296(m) => r == Some(&**m),
                _ => r is None,
            },
    {
        match self {
            ParsedSwiftMessage::MT296(m) => Some(&**m),
            _ => None,
        }
    }

    /// The message, if it is an MT296.
    pub fn into_mt296(self) -> (r: Option<SwiftMessage<MT296>>)
        ensures
            match self {
                ParsedSwiftMessage::MT296(m) => r == Some(*m),
                _ => r is None,
            },
    {
        match self {
            ParsedSwiftMessage::MT296(m) => Some(*m),
            _ => None,
        }
    }

    /// The message, if it is an MT299.
    pub fn as_mt299(&self) -> (r: Option<&SwiftMessage<MT299>>)
        ensures
            match self {
                ParsedSwiftMessage::MT299(m) => r == Some(&**m),
                _ => r is None,
            },
    {
        match self {
            ParsedSwiftMessage::MT299(m) => Some(&**m),
            _ => None,
        }
    }

    /// The message, if it is an MT299.
    pub fn into_mt299(self) -> (r: Option<SwiftMessage<MT299>>)
        ensures
            match self {
                ParsedSwiftMessage::MT299(m) => r == Some(*m),
                _ => r is None,
            },
    {
        match self {
            ParsedSwiftMessage::MT299(m) => Some(*m),
            _ => None,
        }
    }

    /// The message, if it is an MT900.
    pub fn as_mt900(&self) -> (r: Option<&SwiftMessage<MT900>>)
        ensures
            match self {
                ParsedSwiftMessage::MT900(m) => r == Some(&**m),
                _ => r is None,
            },
    {
        match self {
            ParsedSwiftMessage::MT900(m) => Some(&**m),
            _ => None,
        }
    }

    /// The message, if it is an MT900.
    pub fn into_mt900(self) -> (r: Option<SwiftMessage<MT900>>)
        ensures
            match self {
                ParsedSwiftMessage::MT900(m) => r == Some(*m),
                _ => r is None,
            },
    {
        match self {
            ParsedSwiftMessage::MT900(m) => Some(*m),
            _ => None,
        }
    }

    /// The message, if it is an MT910.
    pub fn as_mt910(&self) -> (r: Option<&SwiftMessage<MT910>>)
        ensures
            match self {
                ParsedSwiftMessage::MT910(m) => r == Some(&**m),
                _ => r is None,
            },
    {
        match self {
            ParsedSwiftMessage::MT910(m) => Some(&**m),
            _ => None,
        }
    }

    /// The message, if it is an MT910.
    pub fn into_mt910(self) -> (r: Option<SwiftMessage<MT910>>)
        ensures
            match self {
                ParsedSwiftMessage::MT910(m) => r == Some(*m),
                _ => r is None,
            },
    {
        match self {
            ParsedSwiftMessage::MT910(m) => Some(*m),
            _ => None,
        }
    }

    /// The message, if it is an MT920.
    pub fn as_mt920(&self) -> (r: Option<&SwiftMessage<MT920>>)
        ensures
            match self {
                ParsedSwiftMessage::MT920(m) => r == Some(&**m),
                _ => r is None,
            },
    {
        match self {
            ParsedSwiftMessage::MT920(m) => Some(&**m),
            _ => None,
        }
    }

    /// The message, if it is an MT920.
    pub fn into_mt920(self) -> (r: Option<SwiftMessage<MT920>>)
        ensures
            match self {
                ParsedSwiftMessage::MT920(m) => r == Some(*m),
                _ => r is None,
            },
    {
        match self {
            ParsedSwiftMessage::MT920(m) => Some(*m),
            _ => None,
        }
    }

    /// The message, if it is an MT935.
    pub fn as_mt935(&self) -> (r: Option<&SwiftMessage<MT935>>)
        ensures
            match self {
                ParsedSwiftMessage::MT935(m) => r == Some(&**m),
                _ => r is None,
            },
    {
        match self {
            ParsedSwiftMessage::MT935(m) => Some(&**m),
            _ => None,
        }
    }

    /// The message, if it is an MT935.
    pub fn into_mt935(self) -> (r: Option<SwiftMessage<MT935>>)
        ensures
            match self {
                ParsedSwiftMessage::MT935(m) => r == Some(*m),
                _ => r is None,
            },
    {
        match self {
            ParsedSwiftMessage::MT935(m) => Some(*m),
            _ => None,
        }
    }

    /// The message, if it is an MT940.
    pub fn as_mt940(&self) -> (r: Option<&SwiftMessage<MT940>>)
        ensures
            match self {
                ParsedSwiftMessage::MT940(m) => r == Some(&**m),
                _ => r is None,
            },
    {
        match self {
            ParsedSwiftMessage::MT940(m) => Some(&**m),
            _ => None,
        }
    }

    /// The message, if it is an MT940.
    pub fn into_mt940(self) -> (r: Option<SwiftMessage<MT940>>)
        ensures
            match self {
                ParsedSwiftMessage::MT940(m) => r == Some(*m),
                _ => r is None,
            },
    {
        match self {
            ParsedSwiftMessage::MT940(m) => Some(*m),
            _ => None,
        }
    }

    /// The message, if it is an MT941.
    pub fn as_mt941(&self) -> (r: Option<&SwiftMessage<MT941>>)
        ensures
            match self {
                ParsedSwiftMessage::MT941(m) => r == Some(&**m),
                _ => r is None,
            },
    {
        match self {
            ParsedSwiftMessage::MT941(m) => Some(&**m),
            _ => None,
        }
    }

    /// The message, if it is an MT941.
    pub fn into_mt941(self) -> (r: Option<SwiftMessage<MT941>>)
        ensures
            match self {
                ParsedSwiftMessage::MT941(m) => r == Some(*m),
                _ => r is None,
            },
    {
        match self {
            ParsedSwiftMessage::MT941(m) => Some(*m),
            _ => None,
        }
    }

    /// The message, if it is an MT942.
    pub fn as_mt942(&self) -> (r: Option<&SwiftMessage<MT942>>)
        ensures
            match self {
                ParsedSwiftMessage::MT942(m) => r == Some(&**m),
                _ => r is None,
            },
    {
        match self {
            ParsedSwiftMessage::MT942(m) => Some(&**m),
            _ => None,
        }
    }

    /// The message, if it is an MT942.
    pub fn into_mt942(self) -> (r: Option<SwiftMessage<MT942>>)
        ensures
            match self {
                ParsedSwiftMessage::MT942(m) => r == Some(*m),
                _ => r is None,
            },
    {
        match self {
            ParsedSwiftMessage::MT942(m) => Some(*m),
            _ => None,
        }
    }

    /// The message, if it is an MT950.
    pub fn as_mt950(&self) -> (r: Option<&SwiftMessage<MT950>>)
        ensures
            match self {
                ParsedSwiftMessage::MT950(m) => r == Some(&**m),
                _ => r is None,
            },
    {
        match self {
            ParsedSwiftMessage::MT950(m) => Some(&**m),
            _ => None,
        }
    }

    /// The message, if it is an MT950.
    pub fn into_mt950(self) -> (r: Option<SwiftMessage<MT950>>)
        ensures
            match self {
                ParsedSwiftMessage::MT950(m) => r == Some(*m),
                _ => r is None,
            },
    {
        match self {
            ParsedSwiftMessage::MT950(m) => Some(*m),
            _ => None,
        }
    }
}

/// What parsing a message with the type read from block 2 gives (type mismatches reported as T03).
pub open spec fn auto_parsed(raw: Seq<char>, r: Result<ParsedSwiftMessage, ParseError>) -> bool {
    let b2 = block_or_empty(raw, 2);
    if !ApplicationHeader::readable(b2) {
        r matches Err(ParseError::InvalidBlockStructure { message }) && message@
            == "Application header too short"@
    } else {
        let t = b2.subrange(1, 4);
        if t == "101"@ {
            match r {
                Ok(ParsedSwiftMessage::MT101(m)) => message_parsed::<MT101>(raw, Ok(*m), true),
                Ok(_) => false,
                Err(e) => message_parsed::<MT101>(raw, Err(e), true),
            }
        } else if t == "103"@ {
            match r {
                Ok(ParsedSwiftMessage::MT103(m)) => message_parsed::<MT103>(raw, Ok(*m), true),
                Ok(_) => false,
                Err(e) => message_parsed::<MT103>(raw, Err(e), true),
            }
        } else if t == "104"@ {
            match r {
                Ok(ParsedSwiftMessage::MT104(m)) => message_parsed::<MT104>(raw, Ok(*m), true),
                Ok(_) => false,
                Err(e) => message_parsed::<MT104>(raw, Err(e), true),
            }
        } else if t == "107"@ {
            match r {
                Ok(ParsedSwiftMessage::MT107(m)) => message_parsed::<MT107>(raw, Ok(*m), true),
                Ok(_) => false,
                Err(e) => message_parsed::<MT107>(raw, Err(e), true),
            }
        } else if t == "110"@ {
            match r {
                Ok(ParsedSwiftMessage::MT110(m)) => message_parsed::<MT110>(raw, Ok(*m), true),
                Ok(_) => false,
                Err(e) => message_parsed::<MT110>(raw, Err(e), true),
            }
        } else if t == "111"@ {
            match r {
                Ok(ParsedSwiftMessage::MT111(m)) => message_parsed::<MT111>(raw, Ok(*m), true),
                Ok(_) => false,
                Err(e) => message_parsed::<MT111>(raw, Err(e), true),
            }
        } else if t == "112"@ {
            match r {
                Ok(ParsedSwiftMessage::MT112(m)) => message_parsed::<MT112>(raw, Ok(*m), true),
                Ok(_) => false,
                Err(e) => message_parsed::<MT112>(raw, Err(e), true),
            }
        } else if t == "190"@ {
            match r {
                Ok(ParsedSwiftMessage::MT190(m)) => message_parsed::<MT190>(raw, Ok(*m), true),
                Ok(_) => false,
                Err(e) => message_parsed::<MT190>(raw, Err(e), true),
            }
        } else if t == "191"@ {
            match r {
                Ok(ParsedSwiftMessage::MT191(m)) => message_parsed::<MT191>(raw, Ok(*m), true),
                Ok(_) => false,
                Err(e) => message_parsed::<MT191>(raw, Err(e), true),
            }
        } else if t == "200"@ {
            match r {
                Ok(ParsedSwiftMessage::MT200(m)) => message_parsed::<MT200>(raw, Ok(*m), true),
                Ok(_) => false,
                Err(e) => message_parsed::<MT200>(raw, Err(e), true),
            }
        } else if t == "202"@ {
            match r {
                Ok(ParsedSwiftMessage::MT202(m)) => message_parsed::<MT202>(raw, Ok(*m), true),
                Ok(_) => false,
                Err(e) => message_parsed::<MT202>(raw, Err(e), true),
            }
        } else if t == "204"@ {
            match r {
                Ok(ParsedSwiftMessage::MT204(m)) => message_parsed::<MT204>(raw, Ok(*m), true),
                Ok(_) => false,
                Err(e) => message_parsed::<MT204>(raw, Err(e), true),
            }
        } else if t == "205"@ {
            match r {
                Ok(ParsedSwiftMessage::MT205(m)) => message_parsed::<MT205>(raw, Ok(*m), true),
                Ok(_) => false,
                Err(e) => message_parsed::<MT205>(raw, Err(e), true),
            }
        } else if t == "210"@ {
            match r {
                Ok(ParsedSwiftMessage::MT210(m)) => message_parsed::<MT210>(raw, Ok(*m), true),
                Ok(_) => false,
                Err(e) => message_parsed::<MT210>(raw, Err(e), true),
            }
        } else if t == "290"@ {
            match r {
                Ok(ParsedSwiftMessage::MT290(m)) => message_parsed::<MT290>(raw, Ok(*m), true),
                Ok(_) => false,
                Err(e) => message_parsed::<MT290>(raw, Err(e), true),
            }
        } else if t == "291"@ {
            match r {
                Ok(ParsedSwiftMessage::MT291(m)) => message_parsed::<MT291>(raw, Ok(*m), true),
                Ok(_) => false,
                Err(e) => message_parsed::<MT291>(raw, Err(e), true),
            }
        } else if t == "900"@ {
            match r {
                Ok(ParsedSwiftMessage::MT900(m)) => message_parsed::<MT900>(raw, Ok(*m), true),
                Ok(_) => false,
                Err(e) => message_parsed::<MT900>(raw, Err(e), true),
            }
        } else if t == "910"@ {
            match r {
                Ok(ParsedSwiftMessage::MT910(m)) => message_parsed::<MT910>(raw, Ok(*m), true),
                Ok(_) => false,
                Err(e) => message_parsed::<MT910>(raw, Err(e), true),
            }
        } else if t == "920"@ {
            match r {
                Ok(ParsedSwiftMessage::MT920(m)) => message_parsed::<MT920>(raw, Ok(*m), true),
                Ok(_) => false,
                Err(e) => message_parsed::<MT920>(raw, Err(e), true),
            }
        } else if t == "935"@ {
            match r {
                Ok(ParsedSwiftMessage::MT935(m)) => message_parsed::<MT935>(raw, Ok(*m), true),
                Ok(_) => false,
                Err(e) => message_parsed::<MT935>(raw, Err(e), true),
            }
        } else if t == "940"@ {
            match r {
                Ok(ParsedSwiftMessage::MT940(m)) => message_parsed::<MT940>(raw, Ok(*m), true),
                Ok(_) => false,
                Err(e) => message_parsed::<MT940>(raw, Err(e), true),
            }
        } else if t == "941"@ {
            match r {
                Ok(ParsedSwiftMessage::MT941(m)) => message_parsed::<MT941>(raw, Ok(*m), true),
                Ok(_) => false,
                Err(e) => message_parsed::<MT941>(raw, Err(e), true),
            }
        } else if t == "942"@ {
            match r {
                Ok(ParsedSwiftMessage::MT942(m)) => message_parsed::<MT942>(raw, Ok(*m), true),
                Ok(_) => false,
                Err(e) => message_parsed::<MT942>(raw, Err(e), true),
            }
        } else if t == "950"@ {
            match r {
                Ok(ParsedSwiftMessage::MT950(m)) => message_parsed::<MT950>(raw, Ok(*m), true),
                Ok(_) => false,
                Err(e) => message_parsed::<MT950>(raw, Err(e), true),
            }
        } else if t == "192"@ {
            match r {
                Ok(ParsedSwiftMessage::MT192(m)) => message_parsed::<MT192>(raw, Ok(*m), true),
                Ok(_) => false,
                Err(e) => message_parsed::<MT192>(raw, Err(e), true),
            }
        } else if t == "196"@ {
            match r {
                Ok(ParsedSwiftMessage::MT196(m)) => message_parsed::<MT196>(raw, Ok(*m), true),
                Ok(_) => false,
                Err(e) => message_parsed::<MT196>(raw, Err(e), true),
            }
        } else if t == "292"@ {
            match r {
                Ok(ParsedSwiftMessage::MT292(m)) => message_parsed::<MT292>(raw, Ok(*m), true),
                Ok(_) => false,
                Err(e) => message_parsed::<MT292>(raw, Err(e), true),
            }
        } else if t == "296"@ {
            match r {
                Ok(ParsedSwiftMessage::MT296(m)) => message_parsed::<MT296>(raw, Ok(*m), true),
                Ok(_) => false,
                Err(e) => message_parsed::<MT296>(raw, Err(e), true),
            }
        } else if t == "199"@ {
            match r {
                Ok(ParsedSwiftMessage::MT199(m)) => message_parsed::<MT199>(raw, Ok(*m), true),
                Ok(_) => false,
                Err(e) => message_parsed::<MT199>(raw, Err(e), true),
            }
        } else if t == "299"@ {
            match r {
                Ok(ParsedSwiftMessage::MT299(m)) => message_parsed::<MT299>(raw, Ok(*m), true),
                Ok(_) => false,
                Err(e) => message_parsed::<MT299>(raw, Err(e), true),
            }
        } else {
            r matches Err(ParseError::UnsupportedMessageType { message_type }) && message_type@ == t
        }
    }
}

/// What parsing a message with the type read from block 2 gives.
pub open spec fn auto_parsed_legacy(raw: Seq<char>, r: Result<ParsedSwiftMessage, ParseError>) -> bool {
    let b2 = block_or_empty(raw, 2);
    if !ApplicationHeader::readable(b2) {
        r matches Err(ParseError::InvalidBlockStructure { message }) && message@
            == "Application header too short"@
    } else {
        let t = b2.subrange(1, 4);
        if t == "101"@ {
            match r {
                Ok(ParsedSwiftMessage::MT101(m)) => message_parsed::<MT101>(raw, Ok(*m), false),
                Ok(_) => false,
                Err(e) => message_parsed::<MT101>(raw, Err(e), false),
            }
        } else if t == "103"@ {
            match r {
                Ok(ParsedSwiftMessage::MT103(m)) => message_parsed::<MT103>(raw, Ok(*m), false),
                Ok(_) => false,
                Err(e) => message_parsed::<MT103>(raw, Err(e), false),
            }
        } else if t == "104"@ {
            match r {
                Ok(ParsedSwiftMessage::MT104(m)) => message_parsed::<MT104>(raw, Ok(*m), false),
                Ok(_) => false,
                Err(e) => message_parsed::<MT104>(raw, Err(e), false),
            }
        } else if t == "107"@ {
            match r {
                Ok(ParsedSwiftMessage::MT107(m)) => message_parsed::<MT107>(raw, Ok(*m), false),
                Ok(_) => false,
                Err(e) => message_parsed::<MT107>(raw, Err(e), false),
            }
        } else if t == "110"@ {
            match r {
                Ok(ParsedSwiftMessage::MT110(m)) => message_parsed::<MT110>(raw, Ok(*m), false),
                Ok(_) => false,
                Err(e) => message_parsed::<MT110>(raw, Err(e), false),
            }
        } else if t == "111"@ {
            match r {
                Ok(ParsedSwiftMessage::MT111(m)) => message_parsed::<MT111>(raw, Ok(*m), false),
                Ok(_) => false,
                Err(e) => message_parsed::<MT111>(raw, Err(e), false),
            }
        } else if t == "112"@ {
            match r {
                Ok(ParsedSwiftMessage::MT112(m)) => message_parsed::<MT112>(raw, Ok(*m), false),
                Ok(_) => false,
                Err(e) => message_parsed::<MT112>(raw, Err(e), false),
            }
        } else if t == "202"@ {
            match r {
                Ok(ParsedSwiftMessage::MT202(m)) => message_parsed::<MT202>(raw, Ok(*m), false),
                Ok(_) => false,
                Err(e) => message_parsed::<MT202>(raw, Err(e), false),
            }
        } else if t == "205"@ {
            match r {
                Ok(ParsedSwiftMessage::MT205(m)) => message_parsed::<MT205>(raw, Ok(*m), false),
                Ok(_) => false,
                Err(e) => message_parsed::<MT205>(raw, Err(e), false),
            }
        } else if t == "210"@ {
            match r {
                Ok(ParsedSwiftMessage::MT210(m)) => message_parsed::<MT210>(raw, Ok(*m), false),
                Ok(_) => false,
                Err(e) => message_parsed::<MT210>(raw, Err(e), false),
            }
        } else if t == "900"@ {
            match r {
                Ok(ParsedSwiftMessage::MT900(m)) => message_parsed::<MT900>(raw, Ok(*m), false),
                Ok(_) => false,
                Err(e) => message_parsed::<MT900>(raw, Err(e), false),
            }
        } else if t == "910"@ {
            match r {
                Ok(ParsedSwiftMessage::MT910(m)) => message_parsed::<MT910>(raw, Ok(*m), false),
                Ok(_) => false,
                Err(e) => message_parsed::<MT910>(raw, Err(e), false),
            }
        } else if t == "920"@ {
            match r {
                Ok(ParsedSwiftMessage::MT920(m)) => message_parsed::<MT920>(raw, Ok(*m), false),
                Ok(_) => false,
                Err(e) => message_parsed::<MT920>(raw, Err(e), false),
            }
        } else if t == "935"@ {
            match r {
                Ok(ParsedSwiftMessage::MT935(m)) => message_parsed::<MT935>(raw, Ok(*m), false),
                Ok(_) => false,
                Err(e) => message_parsed::<MT935>(raw, Err(e), false),
            }
        } else if t == "940"@ {
            match r {
                Ok(ParsedSwiftMessage::MT940(m)) => message_parsed::<MT940>(raw, Ok(*m), false),
                Ok(_) => false,
                Err(e) => message_parsed::<MT940>(raw, Err(e), false),
            }
        } else if t == "941"@ {
            match r {
                Ok(ParsedSwiftMessage::MT941(m)) => message_parsed::<MT941>(raw, Ok(*m), false),
                Ok(_) => false,
                Err(e) => message_parsed::<MT941>(raw, Err(e), false),
            }
        } else if t == "942"@ {
            match r {
                Ok(ParsedSwiftMessage::MT942(m)) => message_parsed::<MT942>(raw, Ok(*m), false),
                Ok(_) => false,
                Err(e) => message_parsed::<MT942>(raw, Err(e), false),
            }
        } else if t == "950"@ {
            match r {
                Ok(ParsedSwiftMessage::MT950(m)) => message_parsed::<MT950>(raw, Ok(*m), false),
                Ok(_) => false,
                Err(e) => message_parsed::<MT950>(raw, Err(e), false),
            }
        } else if t == "192"@ {
            match r {
                Ok(ParsedSwiftMessage::MT192(m)) => message_parsed::<MT192>(raw, Ok(*m), false),
                Ok(_) => false,
                Err(e) => message_parsed::<MT192>(raw, Err(e), false),
            }
        } else if t == "196"@ {
            match r {
                Ok(ParsedSwiftMessage::MT196(m)) => message_parsed::<MT196>(raw, Ok(*m), false),
                Ok(_) => false,
                Err(e) => message_parsed::<MT196>(raw, Err(e), false),
            }
        } else if t == "292"@ {
            match r {
                Ok(ParsedSwiftMessage::MT292(m)) => message_parsed::<MT292>(raw, Ok(*m), false),
                Ok(_) => false,
                Err(e) => message_parsed::<MT292>(raw, Err(e), false),
            }
        } else if t == "296"@ {
            match r {
                Ok(ParsedSwiftMessage::MT296(m)) => message_parsed::<MT296>(raw, Ok(*m), false),
                Ok(_) => false,
                Err(e) => message_parsed::<MT296>(raw, Err(e), false),
            }
        } else if t == "199"@ {
            match r {
                Ok(ParsedSwiftMessage::MT199(m)) => message_parsed::<MT199>(raw, Ok(*m), false),
                Ok(_) => false,
                Err(e) => message_parsed::<MT199>(raw, Err(e), false),
            }
        } else if t == "299"@ {
            match r {
                Ok(ParsedSwiftMessage::MT299(m)) => message_parsed::<MT299>(raw, Ok(*m), false),
                Ok(_) => false,
                Err(e) => message_parsed::<MT299>(raw, Err(e), false),
            }
        } else {
            r matches Err(ParseError::UnsupportedMessageType { message_type }) && message_type@ == t
        }
    }
}

/// Parse a message with the type read from block 2.
pub fn parse_any(raw_message: &str) -> (r: Result<ParsedSwiftMessage, ParseError>)
    ensures
        auto_parsed(raw_message@, r),
{
    let block2 = match SwiftParser::extract_block(raw_message, 2) {
        Ok(b) => match b {
            Some(s) => s,
            None => String::new(),
        },
        Err(e) => return Err(e),
    };
    let application_header = match ApplicationHeader::parse(block2.as_str()) {
        Ok(h) => h,
        Err(e) => return Err(e),
    };
    let t = string_chars(&application_header.message_type);
    if chars_eq(&t, &to_chars("101")) {
        return match SwiftParser::parse_whole::<MT101>(raw_message, true) {
            Ok(m) => Ok(ParsedSwiftMessage::MT101(Box::new(m))),
            Err(e) => Err(e),
        };
    }
    if chars_eq(&t, &to_chars("103")) {
        return match SwiftParser::parse_whole::<MT103>(raw_message, true) {
            Ok(m) => Ok(ParsedSwiftMessage::MT103(Box::new(m))),
            Err(e) => Err(e),
        };
    }
    if chars_eq(&t, &to_chars("104")) {
        return match SwiftParser::parse_whole::<MT104>(raw_message, true) {
            Ok(m) => Ok(ParsedSwiftMessage::MT104(Box::new(m))),
            Err(e) => Err(e),
        };
    }
    if chars_eq(&t, &to_chars("107")) {
        return match SwiftParser::parse_whole::<MT107>(raw_message, true) {
            Ok(m) => Ok(ParsedSwiftMessage::MT107(Box::new(m))),
            Err(e) => Err(e),
        };
    }
    if chars_eq(&t, &to_chars("110")) {
        return match SwiftParser::parse_whole::<MT110>(raw_message, true) {
            Ok(m) => Ok(ParsedSwiftMessage::MT110(Box::new(m))),
            Err(e) => Err(e),
        };
    }
    if chars_eq(&t, &to_chars("111")) {
        return match SwiftParser::parse_whole::<MT111>(raw_message, true) {
            Ok(m) => Ok(ParsedSwiftMessage::MT111(Box::new(m))),
            Err(e) => Err(e),
        };
    }
    if chars_eq(&t, &to_chars("112")) {
        return match SwiftParser::parse_whole::<MT112>(raw_message, true) {
            Ok(m) => Ok(ParsedSwiftMessage::MT112(Box::new(m))),
            Err(e) => Err(e),
        };
    }
    if chars_eq(&t, &to_chars("190")) {
        return match SwiftParser::parse_whole::<MT190>(raw_message, true) {
            Ok(m) => Ok(ParsedSwiftMessage::MT190(Box::new(m))),
            Err(e) => Err(e),
        };
    }
    if chars_eq(&t, &to_chars("191")) {
        return match SwiftParser::parse_whole::<MT191>(raw_message, true) {
            Ok(m) => Ok(ParsedSwiftMessage::MT191(Box::new(m))),
            Err(e) => Err(e),
        };
    }
    if chars_eq(&t, &to_chars("200")) {
        return match SwiftParser::parse_whole::<MT200>(raw_message, true) {
            Ok(m) => Ok(ParsedSwiftMessage::MT200(Box::new(m))),
            Err(e) => Err(e),
        };
    }
    if chars_eq(&t, &to_chars("202")) {
        return match SwiftParser::parse_whole::<MT202>(raw_message, true) {
            Ok(m) => Ok(ParsedSwiftMessage::MT202(Box::new(m))),
            Err(e) => Err(e),
        };
    }
    if chars_eq(&t, &to_chars("204")) {
        return match SwiftParser::parse_whole::<MT204>(raw_message, true) {
            Ok(m) => Ok(ParsedSwiftMessage::MT204(Box::new(m))),
            Err(e) => Err(e),
        };
    }
    if chars_eq(&t, &to_chars("205")) {
        return match SwiftParser::parse_whole::<MT205>(raw_message, true) {
            Ok(m) => Ok(ParsedSwiftMessage::MT205(Box::new(m))),
            Err(e) => Err(e),
        };
    }
    if chars_eq(&t, &to_chars("210")) {
        return match SwiftParser::parse_whole::<MT210>(raw_message, true) {
            Ok(m) => Ok(ParsedSwiftMessage::MT210(Box::new(m))),
            Err(e) => Err(e),
        };
    }
    if chars_eq(&t, &to_chars("290")) {
        return match SwiftParser::parse_whole::<MT290>(raw_message, true) {
            Ok(m) => Ok(ParsedSwiftMessage::MT290(Box::new(m))),
            Err(e) => Err(e),
        };
    }
    if chars_eq(&t, &to_chars("291")) {
        return match SwiftParser::parse_whole::<MT291>(raw_message, true) {
            Ok(m) => Ok(ParsedSwiftMessage::MT291(Box::new(m))),
            Err(e) => Err(e),
        };
    }
    if chars_eq(&t, &to_chars("900")) {
        return match SwiftParser::parse_whole::<MT900>(raw_message, true) {
            Ok(m) => Ok(ParsedSwiftMessage::MT900(Box::new(m))),
            Err(e) => Err(e),
        };
    }
    if chars_eq(&t, &to_chars("910")) {
        return match SwiftParser::parse_whole::<MT910>(raw_message, true) {
            Ok(m) => Ok(ParsedSwiftMessage::MT910(Box::new(m))),
            Err(e) => Err(e),
        };
    }
    if chars_eq(&t, &to_chars("920")) {
        return match SwiftParser::parse_whole::<MT920>(raw_message, true) {
            Ok(m) => Ok(ParsedSwiftMessage::MT920(Box::new(m))),
            Err(e) => Err(e),
        };
    }
    if chars_eq(&t, &to_chars("935")) {
        return match SwiftParser::parse_whole::<MT935>(raw_message, true) {
            Ok(m) => Ok(ParsedSwiftMessage::MT935(Box::new(m))),
            Err(e) => Err(e),
        };
    }
    if chars_eq(&t, &to_chars("940")) {
        return match SwiftParser::parse_whole::<MT940>(raw_message, true) {
            Ok(m) => Ok(ParsedSwiftMessage::MT940(Box::new(m))),
            Err(e) => Err(e),
        };
    }
    if chars_eq(&t, &to_chars("941")) {
        return match SwiftParser::parse_whole::<MT941>(raw_message, true) {
            Ok(m) => Ok(ParsedSwiftMessage::MT941(Box::new(m))),
            Err(e) => Err(e),
        };
    }
    if chars_eq(&t, &to_chars("942")) {
        return match SwiftParser::parse_whole::<MT942>(raw_message, true) {
            Ok(m) => Ok(ParsedSwiftMessage::MT942(Box::new(m))),
            Err(e) => Err(e),
        };
    }
    if chars_eq(&t, &to_chars("950")) {
        return match SwiftParser::parse_whole::<MT950>(raw_message, true) {
            Ok(m) => Ok(ParsedSwiftMessage::MT950(Box::new(m))),
            Err(e) => Err(e),
        };
    }
    if chars_eq(&t, &to_chars("192")) {
        return match SwiftParser::parse_whole::<MT192>(raw_message, true) {
            Ok(m) => Ok(ParsedSwiftMessage::MT192(Box::new(m))),
            Err(e) => Err(e),
        };
    }
    if chars_eq(&t, &to_chars("196")) {
        return match SwiftParser::parse_whole::<MT196>(raw_message, true) {
            Ok(m) => Ok(ParsedSwiftMessage::MT196(Box::new(m))),
            Err(e) => Err(e),
        };
    }
    if chars_eq(&t, &to_chars("292")) {
        return match SwiftParser::parse_whole::<MT292>(raw_message, true) {
            Ok(m) => Ok(ParsedSwiftMessage::MT292(Box::new(m))),
            Err(e) => Err(e),
        };
    }
    if chars_eq(&t, &to_chars("296")) {
        return match SwiftParser::parse_whole::<MT296>(raw_message, true) {
            Ok(m) => Ok(ParsedSwiftMessage::MT296(Box::new(m))),
            Err(e) => Err(e),
        };
    }
    if chars_eq(&t, &to_chars("199")) {
        return match SwiftParser::parse_whole::<MT199>(raw_message, true) {
            Ok(m) => Ok(ParsedSwiftMessage::MT199(Box::new(m))),
            Err(e) => Err(e),
        };
    }
    if chars_eq(&t, &to_chars("299")) {
        return match SwiftParser::parse_whole::<MT299>(raw_message, true) {
            Ok(m) => Ok(ParsedSwiftMessage::MT299(Box::new(m))),
            Err(e) => Err(e),
        };
    }
    Err(ParseError::UnsupportedMessageType { message_type: application_header.message_type })
}

/// Parse a message with the type read from block 2.
pub fn parse_any_legacy(raw_message: &str) -> (r: Result<ParsedSwiftMessage, ParseError>)
    ensures
        auto_parsed_legacy(raw_message@, r),
{
    let block2 = match SwiftParser::extract_block(raw_message, 2) {
        Ok(b) => match b {
            Some(s) => s,
            None => String::new(),
        },
        Err(e) => return Err(e),
    };
    let application_header = match ApplicationHeader::parse(block2.as_str()) {
        Ok(h) => h,
        Err(e) => return Err(e),
    };
    let t = string_chars(&application_header.message_type);
    if chars_eq(&t, &to_chars("101")) {
        return match SwiftParser::parse_whole::<MT101>(raw_message, false) {
            Ok(m) => Ok(ParsedSwiftMessage::MT101(Box::new(m))),
            Err(e) => Err(e),
        };
    }
    if chars_eq(&t, &to_chars("103")) {
        return match SwiftParser::parse_whole::<MT103>(raw_message, false) {
            Ok(m) => Ok(ParsedSwiftMessage::MT103(Box::new(m))),
            Err(e) => Err(e),
        };
    }
    if chars_eq(&t, &to_chars("104")) {
        return match SwiftParser::parse_whole::<MT104>(raw_message, false) {
            Ok(m) => Ok(ParsedSwiftMessage::MT104(Box::new(m))),
            Err(e) => Err(e),
        };
    }
    if chars_eq(&t, &to_chars("107")) {
        return match SwiftParser::parse_whole::<MT107>(raw_message, false) {
            Ok(m) => Ok(ParsedSwiftMessage::MT107(Box::new(m))),
            Err(e) => Err(e),
        };
    }
    if chars_eq(&t, &to_chars("110")) {
        return match SwiftParser::parse_whole::<MT110>(raw_message, false) {
            Ok(m) => Ok(ParsedSwiftMessage::MT110(Box::new(m))),
            Err(e) => Err(e),
        };
    }
    if chars_eq(&t, &to_chars("111")) {
        return match SwiftParser::parse_whole::<MT111>(raw_message, false) {
            Ok(m) => Ok(ParsedSwiftMessage::MT111(Box::new(m))),
            Err(e) => Err(e),
        };
    }
    if chars_eq(&t, &to_chars("112")) {
        return match SwiftParser::parse_whole::<MT112>(raw_message, false) {
            Ok(m) => Ok(ParsedSwiftMessage::MT112(Box::new(m))),
            Err(e) => Err(e),
        };
    }
    if chars_eq(&t, &to_chars("202")) {
        return match SwiftParser::parse_whole::<MT202>(raw_message, false) {
            Ok(m) => Ok(ParsedSwiftMessage::MT202(Box::new(m))),
            Err(e) => Err(e),
        };
    }
    if chars_eq(&t, &to_chars("205")) {
        return match SwiftParser::parse_whole::<MT205>(raw_message, false) {
            Ok(m) => Ok(ParsedSwiftMessage::MT205(Box::new(m))),
            Err(e) => Err(e),
        };
    }
    if chars_eq(&t, &to_chars("210")) {
        return match SwiftParser::parse_whole::<MT210>(raw_message, false) {
            Ok(m) => Ok(ParsedSwiftMessage::MT210(Box::new(m))),
            Err(e) => Err(e),
        };
    }
    if chars_eq(&t, &to_chars("900")) {
        return match SwiftParser::parse_whole::<MT900>(raw_message, false) {
            Ok(m) => Ok(ParsedSwiftMessage::MT900(Box::new(m))),
            Err(e) => Err(e),
        };
    }
    if chars_eq(&t, &to_chars("910")) {
        return match SwiftParser::parse_whole::<MT910>(raw_message, false) {
            Ok(m) => Ok(ParsedSwiftMessage::MT910(Box::new(m))),
            Err(e) => Err(e),
        };
    }
    if chars_eq(&t, &to_chars("920")) {
        return match SwiftParser::parse_whole::<MT920>(raw_message, false) {
            Ok(m) => Ok(ParsedSwiftMessage::MT920(Box::new(m))),
            Err(e) => Err(e),
        };
    }
    if chars_eq(&t, &to_chars("935")) {
        return match SwiftParser::parse_whole::<MT935>(raw_message, false) {
            Ok(m) => Ok(ParsedSwiftMessage::MT935(Box::new(m))),
            Err(e) => Err(e),
        };
    }
    if chars_eq(&t, &to_chars("940")) {
        return match SwiftParser::parse_whole::<MT940>(raw_message, false) {
            Ok(m) => Ok(ParsedSwiftMessage::MT940(Box::new(m))),
            Err(e) => Err(e),
        };
    }
    if chars_eq(&t, &to_chars("941")) {
        return match SwiftParser::parse_whole::<MT941>(raw_message, false) {
            Ok(m) => Ok(ParsedSwiftMessage::MT941(Box::new(m))),
            Err(e) => Err(e),
        };
    }
    if chars_eq(&t, &to_chars("942")) {
        return match SwiftParser::parse_whole::<MT942>(raw_message, false) {
            Ok(m) => Ok(ParsedSwiftMessage::MT942(Box::new(m))),
            Err(e) => Err(e),
        };
    }
    if chars_eq(&t, &to_chars("950")) {
        return match SwiftParser::parse_whole::<MT950>(raw_message, false) {
            Ok(m) => Ok(ParsedSwiftMessage::MT950(Box::new(m))),
            Err(e) => Err(e),
        };
    }
    if chars_eq(&t, &to_chars("192")) {
        return match SwiftParser::parse_whole::<MT192>(raw_message, false) {
            Ok(m) => Ok(ParsedSwiftMessage::MT192(Box::new(m))),
            Err(e) => Err(e),
        };
    }
    if chars_eq(&t, &to_chars("196")) {
        return match SwiftParser::parse_whole::<MT196>(raw_message, false) {
            Ok(m) => Ok(ParsedSwiftMessage::MT196(Box::new(m))),
            Err(e) => Err(e),
        };
    }
    if chars_eq(&t, &to_chars("292")) {
        return match SwiftParser::parse_whole::<MT292>(raw_message, false) {
            Ok(m) => Ok(ParsedSwiftMessage::MT292(Box::new(m))),
            Err(e) => Err(e),
        };
    }
    if chars_eq(&t, &to_chars("296")) {
        return match SwiftParser::parse_whole::<MT296>(raw_message, false) {
            Ok(m) => Ok(ParsedSwiftMessage::MT296(Box::new(m))),
            Err(e) => Err(e),
        };
    }
    if chars_eq(&t, &to_chars("199")) {
        return match SwiftParser::parse_whole::<MT199>(raw_message, false) {
            Ok(m) => Ok(ParsedSwiftMessage::MT199(Box::new(m))),
            Err(e) => Err(e),
        };
    }
    if chars_eq(&t, &to_chars("299")) {
        return match SwiftParser::parse_whole::<MT299>(raw_message, false) {
            Ok(m) => Ok(ParsedSwiftMessage::MT299(Box::new(m))),
            Err(e) => Err(e),
        };
    }
    Err(ParseError::UnsupportedMessageType { message_type: application_header.message_type })
}

} // verus!
