//! Wire-level commands: client-originated (`UserCommand`) and
//! server-originated (`ServerCommand`), with their mathematical views.

use vstd::prelude::*;

verus! {

/// Payload of a registration request.
#[derive(Debug, Clone)]
pub struct RegisterCommand {
    pub login: String,
    pub password: String,
}

/// A command sent by the client; the wire discriminator field is `"_ct"`.
#[derive(Debug, Clone)]
pub enum UserCommand {
    Register(RegisterCommand),
}

/// Payload of the server's reply to a registration request.
#[derive(Debug, Clone)]
pub struct RegisterResponseCommand {
    pub email_sent: bool,
}

/// A command sent by the server; the wire discriminator field is `"_st"`.
#[derive(Debug, Clone)]
pub enum ServerCommand {
    RegisterResponse(RegisterResponseCommand),
}

/// Mathematical view of a `UserCommand`.
#[verifier::ext_equal]
pub enum UserCommandView {
    Register { login: Seq<char>, password: Seq<char> },
}

/// Mathematical view of a `ServerCommand`.
#[verifier::ext_equal]
pub enum ServerCommandView {
    RegisterResponse { email_sent: bool },
}

impl View for UserCommand {
    type V = UserCommandView;

    open spec fn view(&self) -> UserCommandView {
        match self {
            UserCommand::Register(c) => UserCommandView::Register {
                login: c.login@,
                password: c.password@,
            },
        }
    }
}

impl View for ServerCommand {
    type V = ServerCommandView;

    open spec fn view(&self) -> ServerCommandView {
        match self {
            ServerCommand::RegisterResponse(c) => ServerCommandView::RegisterResponse {
                email_sent: c.email_sent,
            },
        }
    }
}

impl PartialEq for RegisterCommand {
    fn eq(&self, other: &Self) -> bool {
        self.login == other.login && self.password == other.password
    }
}

impl vstd::std_specs::cmp::PartialEqSpecImpl for RegisterCommand {
    open spec fn obeys_eq_spec() -> bool {
        true
    }

    open spec fn eq_spec(&self, other: &Self) -> bool {
        self.login@ == other.login@ && self.password@ == other.password@
    }
}

impl PartialEq for UserCommand {
    fn eq(&self, other: &Self) -> bool {
        match (self, other) {
            (UserCommand::Register(a), UserCommand::Register(b)) => a == b,
        }
    }
}

impl vstd::std_specs::cmp::PartialEqSpecImpl for UserCommand {
    open spec fn obeys_eq_spec() -> bool {
        true
    }

    open spec fn eq_spec(&self, other: &Self) -> bool {
        self@ == other@
    }
}

impl PartialEq for RegisterResponseCommand {
    fn eq(&self, other: &Self) -> bool {
        self.email_sent == other.email_sent
    }
}

impl vstd::std_specs::cmp::PartialEqSpecImpl for RegisterResponseCommand {
    open spec fn obeys_eq_spec() -> bool {
        true
    }

    open spec fn eq_spec(&self, other: &Self) -> bool {
        self.email_sent == other.email_sent
    }
}

impl PartialEq for ServerCommand {
    fn eq(&self, other: &Self) -> bool {
        match (self, other) {
            (ServerCommand::RegisterResponse(a), ServerCommand::RegisterResponse(b)) => a == b,
        }
    }
}

impl vstd::std_specs::cmp::PartialEqSpecImpl for ServerCommand {
    open spec fn obeys_eq_spec() -> bool {
        true
    }

    open spec fn eq_spec(&self, other: &Self) -> bool {
        self@ == other@
    }
}

} // verus!
