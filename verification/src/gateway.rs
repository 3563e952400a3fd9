//! The one connection to the gateway.

use vstd::prelude::*;

verus! {

/// The place of the gateway's connection: `W` is what is written to.
pub struct Gateway<W> {
    pub writer: Option<W>,
}

/// Why nothing can be sent.
#[derive(Debug, Clone, Copy, PartialEq, Eq, Structural)]
pub enum GatewayError {
    NotConnected,
}

impl GatewayError {
    /// The error in words.
    pub fn message(&self) -> (message: String)
        ensures
            message@ == "no gateway connected"@,
    {
        "no gateway connected".to_owned()
    }
}

impl<W> Gateway<W> {
    /// A place that no gateway has taken.
    pub fn new() -> (gateway: Self)
        ensures
            gateway.writer is None,
    {
        Gateway { writer: None }
    }

    /// Whether a connection that comes in is taken: only one at a time is.
    pub fn admits(&self) -> (yes: bool)
        ensures
            yes == (self.writer is None),
    {
        self.writer.is_none()
    }

    /// Takes a connection that was admitted.
    pub fn connect(&mut self, writer: W)
        requires
            old(self).writer is None,
        ensures
            final(self).writer == Some(writer),
    {
        self.writer = Some(writer);
    }

    /// Gives the place free once the connection has ended.
    pub fn disconnect(&mut self)
        ensures
            final(self).writer is None,
    {
        self.writer = None;
    }

    /// What to write to, if a gateway is connected.
    pub fn send_to(&mut self) -> (target: Result<&mut W, GatewayError>)
        ensures
            match target {
                Ok(writer) => {
                    &&& old(self).writer == Some(*writer)
                    &&& final(self).writer == Some(*final(writer))
                },
                Err(_) => {
                    &&& old(self).writer is None
                    &&& final(self).writer is None
                },
            },
    {
        match self.writer.as_mut() {
            Some(writer) => Ok(writer),
            None => Err(GatewayError::NotConnected),
        }
    }
}

} // verus!
