//! The errors the library and the node report.

use vstd::prelude::*;

use libp2p::identity::DecodingError as WalletDecodingError;
use vstd::string::to_string_from_display_ensures;

verus! {

/// `libp2p::TransportError`, carried through unchanged.
#[verifier::external_type_specification]
#[verifier::external_body]
#[verifier::reject_recursive_types(TErr)]
pub struct ExTransportError<TErr>(libp2p::TransportError<TErr>);

/// `std::io::Error`, carried through unchanged.
#[verifier::external_type_specification]
#[verifier::external_body]
pub struct ExIoError(std::io::Error);

/// `libp2p::noise::Error`, carried through unchanged.
#[verifier::external_type_specification]
#[verifier::external_body]
pub struct ExNoiseError(libp2p::noise::Error);

/// `libp2p::multiaddr::Error`, carried through unchanged.
#[verifier::external_type_specification]
#[verifier::external_body]
pub struct ExMultiaddrError(libp2p::multiaddr::Error);

/// `serde_json::Error`, carried through unchanged.
#[verifier::external_type_specification]
#[verifier::external_body]
pub struct ExSerdeJsonError(serde_json::Error);

/// `sled::Error`, carried through unchanged.
#[verifier::external_type_specification]
#[verifier::external_body]
pub struct ExSledError(sled::Error);

/// `libp2p::identity::DecodingError`, carried through unchanged.
#[verifier::external_type_specification]
#[verifier::external_body]
pub struct ExWalletDecodingError(WalletDecodingError);

/// `bincode::ErrorKind`, the payload of `bincode::Error`.
#[verifier::external_type_specification]
#[verifier::external_body]
pub struct ExBincodeErrorKind(bincode::ErrorKind);

pub type Result<T> = std::result::Result<T, MarkChainError>;

/// Every failure the library and the node report.
#[derive(Debug)]
pub enum MarkChainError {
    Transport(libp2p::TransportError<std::io::Error>),
    Noise(libp2p::noise::Error),
    Io(std::io::Error),
    Multiaddr(libp2p::multiaddr::Error),
    SerdeJson(serde_json::Error),
    Sled(sled::Error),
    WalletDecoding(WalletDecodingError),
    Bincode(bincode::Error),
}

impl From<libp2p::TransportError<std::io::Error>> for MarkChainError {
    fn from(error: libp2p::TransportError<std::io::Error>) -> (r: MarkChainError) {
        MarkChainError::Transport(error)
    }
}

impl vstd::std_specs::convert::FromSpecImpl<libp2p::TransportError<std::io::Error>> for MarkChainError {
    open spec fn obeys_from_spec() -> bool {
        true
    }

    open spec fn from_spec(error: libp2p::TransportError<std::io::Error>) -> MarkChainError {
        MarkChainError::Transport(error)
    }
}

impl From<libp2p::noise::Error> for MarkChainError {
    fn from(error: libp2p::noise::Error) -> (r: MarkChainError) {
        MarkChainError::Noise(error)
    }
}

impl vstd::std_specs::convert::FromSpecImpl<libp2p::noise::Error> for MarkChainError {
    open spec fn obeys_from_spec() -> bool {
        true
    }

    open spec fn from_spec(error: libp2p::noise::Error) -> MarkChainError {
        MarkChainError::Noise(error)
    }
}

impl From<std::io::Error> for MarkChainError {
    fn from(error: std::io::Error) -> (r: MarkChainError) {
        MarkChainError::Io(error)
    }
}

impl vstd::std_specs::convert::FromSpecImpl<std::io::Error> for MarkChainError {
    open spec fn obeys_from_spec() -> bool {
        true
    }

    open spec fn from_spec(error: std::io::Error) -> MarkChainError {
        MarkChainError::Io(error)
    }
}

impl From<libp2p::multiaddr::Error> for MarkChainError {
    fn from(error: libp2p::multiaddr::Error) -> (r: MarkChainError) {
        MarkChainError::Multiaddr(error)
    }
}

impl vstd::std_specs::convert::FromSpecImpl<libp2p::multiaddr::Error> for MarkChainError {
    open spec fn obeys_from_spec() -> bool {
        true
    }

    open spec fn from_spec(error: libp2p::multiaddr::Error) -> MarkChainError {
        MarkChainError::Multiaddr(error)
    }
}

impl From<serde_json::Error> for MarkChainError {
    fn from(error: serde_json::Error) -> (r: MarkChainError) {
        MarkChainError::SerdeJson(error)
    }
}

impl vstd::std_specs::convert::FromSpecImpl<serde_json::Error> for MarkChainError {
    open spec fn obeys_from_spec() -> bool {
        true
    }

    open spec fn from_spec(error: serde_json::Error) -> MarkChainError {
        MarkChainError::SerdeJson(error)
    }
}

impl From<sled::Error> for MarkChainError {
    fn from(error: sled::Error) -> (r: MarkChainError) {
        MarkChainError::Sled(error)
    }
}

impl vstd::std_specs::convert::FromSpecImpl<sled::Error> for MarkChainError {
    open spec fn obeys_from_spec() -> bool {
        true
    }

    open spec fn from_spec(error: sled::Error) -> MarkChainError {
        MarkChainError::Sled(error)
    }
}

impl From<WalletDecodingError> for MarkChainError {
    fn from(error: WalletDecodingError) -> (r: MarkChainError) {
        MarkChainError::WalletDecoding(error)
    }
}

impl vstd::std_specs::convert::FromSpecImpl<WalletDecodingError> for MarkChainError {
    open spec fn obeys_from_spec() -> bool {
        true
    }

    open spec fn from_spec(error: WalletDecodingError) -> MarkChainError {
        MarkChainError::WalletDecoding(error)
    }
}

impl From<bincode::Error> for MarkChainError {
    fn from(error: bincode::Error) -> (r: MarkChainError) {
        MarkChainError::Bincode(error)
    }
}

impl vstd::std_specs::convert::FromSpecImpl<bincode::Error> for MarkChainError {
    open spec fn obeys_from_spec() -> bool {
        true
    }

    open spec fn from_spec(error: bincode::Error) -> MarkChainError {
        MarkChainError::Bincode(error)
    }
}

/// `label`, then what `detail` displays, then `tail`, as one string.
fn labelled<T: std::fmt::Display>(label: &str, detail: &T, tail: &str) -> (r: String)
    ensures
        exists|d: String| to_string_from_display_ensures(detail, d) && r@ == label@ + d@ + tail@,
{
    let d = detail.to_string();
    let ghost shown = d;
    let r = String::from_str(label).concat(d.as_str()).concat(tail);
    assert(to_string_from_display_ensures(detail, shown) && r@ == label@ + shown@ + tail@);
    r
}

impl MarkChainError {
    /// The text the node logs for the error: the variant's name, a colon,
    /// and what the wrapped error displays (the first three variants end
    /// with a space).
    pub fn to_string(&self) -> (r: String)
        ensures
            (*self) matches MarkChainError::Transport(e) ==> exists|d: String|
                to_string_from_display_ensures(&e, d) && r@ == "Transport: "@ + d@ + " "@,
            (*self) matches MarkChainError::Noise(e) ==> exists|d: String|
                to_string_from_display_ensures(&e, d) && r@ == "Noise: "@ + d@ + " "@,
            (*self) matches MarkChainError::Io(e) ==> exists|d: String|
                to_string_from_display_ensures(&e, d) && r@ == "Io: "@ + d@ + " "@,
            (*self) matches MarkChainError::Multiaddr(e) ==> exists|d: String|
                to_string_from_display_ensures(&e, d) && r@ == "Multiaddr: "@ + d@ + ""@,
            (*self) matches MarkChainError::SerdeJson(e) ==> exists|d: String|
                to_string_from_display_ensures(&e, d) && r@ == "SerdeJson: "@ + d@ + ""@,
            (*self) matches MarkChainError::Sled(e) ==> exists|d: String|
                to_string_from_display_ensures(&e, d) && r@ == "Sled: "@ + d@ + ""@,
            (*self) matches MarkChainError::WalletDecoding(e) ==> exists|d: String|
                to_string_from_display_ensures(&e, d) && r@ == "WalletDecoding: "@ + d@ + ""@,
            (*self) matches MarkChainError::Bincode(e) ==> exists|d: String|
                to_string_from_display_ensures(&e, d) && r@ == "Bincode: "@ + d@ + ""@,
    {
        match self {
            MarkChainError::Transport(e) => labelled("Transport: ", e, " "),
            MarkChainError::Noise(e) => labelled("Noise: ", e, " "),
            MarkChainError::Io(e) => labelled("Io: ", e, " "),
            MarkChainError::Multiaddr(e) => labelled("Multiaddr: ", e, ""),
            MarkChainError::SerdeJson(e) => labelled("SerdeJson: ", e, ""),
            MarkChainError::Sled(e) => labelled("Sled: ", e, ""),
            MarkChainError::WalletDecoding(e) => labelled("WalletDecoding: ", e, ""),
            MarkChainError::Bincode(e) => labelled("Bincode: ", e, ""),
        }
    }
}

} // verus!
