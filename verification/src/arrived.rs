//! A file once it is a Stream: its bytes, and where they came from.

use vstd::prelude::*;

verus! {

/// One file that arrived.
#[derive(Clone, Debug, PartialEq, Eq)]
pub struct Arrived {
    /// `ftp://server/name`.
    pub origin_uri: String,
    pub bytes: Vec<u8>,
}

/// An [`Arrived`] by its characters and bytes.
pub struct ArrivedView {
    pub origin_uri: Seq<char>,
    pub bytes: Seq<u8>,
}

impl View for Arrived {
    type V = ArrivedView;

    open spec fn view(&self) -> ArrivedView {
        ArrivedView { origin_uri: self.origin_uri@, bytes: self.bytes@ }
    }
}

impl DeepView for Arrived {
    type V = ArrivedView;

    open spec fn deep_view(&self) -> ArrivedView {
        self@
    }
}

/// The file `name` of `server`, as it arrived.
pub open spec fn arrival(server: Seq<char>, name: Seq<char>, bytes: Seq<u8>) -> ArrivedView {
    ArrivedView { origin_uri: "ftp://"@ + server + "/"@ + name, bytes }
}

impl Arrived {
    /// The file `name` of `server`, as it arrived.
    pub fn from_server(server: &str, name: &str, bytes: Vec<u8>) -> (arrived: Self)
        ensures
            arrived@ == arrival(server@, name@, bytes@),
            arrived.bytes@ == bytes@,
            arrived.origin_uri@ == "ftp://"@ + server@ + "/"@ + name@,
    {
        let mut origin_uri: String = "ftp://".to_owned();
        origin_uri.append(server);
        origin_uri.append("/");
        origin_uri.append(name);
        Arrived { origin_uri, bytes }
    }
}

} // verus!
