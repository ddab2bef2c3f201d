//! The records that the agent reports, and the names that its enumerated
//! fields have on the wire.

use crate::text::same_text;
use vstd::prelude::*;

verus! {

/// The value of a counter or period that a record leaves out.
pub fn zero() -> (r: u64)
    ensures
        r == 0,
{
    0
}

/// How a face reaches the other end.
#[derive(Clone, Copy, Debug, PartialEq, Eq, Structural)]
pub enum LinkType {
    Unspecified,
    PointToPoint,
    MultiAccess,
    AdHoc,
}

impl LinkType {
    /// The name of the value on the wire.
    pub open spec fn wire_name(self) -> Seq<char> {
        match self {
            LinkType::Unspecified => "none"@,
            LinkType::PointToPoint => "point-to-point"@,
            LinkType::MultiAccess => "multi-access"@,
            LinkType::AdHoc => "ad-hoc"@,
        }
    }

    /// The name of the value on the wire.
    pub fn name(&self) -> (r: &'static str)
        ensures
            r@ == self.wire_name(),
    {
        match self {
            LinkType::Unspecified => "none",
            LinkType::PointToPoint => "point-to-point",
            LinkType::MultiAccess => "multi-access",
            LinkType::AdHoc => "ad-hoc",
        }
    }

    /// The value that `name` names on the wire; a name outside the table
    /// names none.
    pub fn from_name(name: &str) -> (r: Option<LinkType>)
        ensures
            match r {
                Some(v) => v.wire_name() == name@,
                None => forall|v: LinkType| #[trigger] v.wire_name() != name@,
            },
    {
        if same_text(name, "none") {
            Some(LinkType::Unspecified)
        } else if same_text(name, "point-to-point") {
            Some(LinkType::PointToPoint)
        } else if same_text(name, "multi-access") {
            Some(LinkType::MultiAccess)
        } else if same_text(name, "ad-hoc") {
            Some(LinkType::AdHoc)
        } else {
            None
        }
    }

    /// No two values share a name on the wire.
    pub proof fn law_names_differ(a: LinkType, b: LinkType)
        requires
            a.wire_name() == b.wire_name(),
        ensures
            a == b,
    {
        reveal_strlit("none");
        reveal_strlit("point-to-point");
        reveal_strlit("multi-access");
        reveal_strlit("ad-hoc");
        assert("none"@.len() == 4 && "none"@[0] == 'n' && "none"@[1] == 'o');
        assert("point-to-point"@.len() == 14 && "point-to-point"@[0] == 'p' && "point-to-point"@[1] == 'o');
        assert("multi-access"@.len() == 12 && "multi-access"@[0] == 'm' && "multi-access"@[1] == 'u');
        assert("ad-hoc"@.len() == 6 && "ad-hoc"@[0] == 'a' && "ad-hoc"@[1] == 'd');
    }
}

/// Whether a face stays on this machine.
#[derive(Clone, Copy, Debug, PartialEq, Eq, Structural)]
pub enum FaceScope {
    Unspecified,
    Local,
    NonLocal,
}

impl FaceScope {
    /// The name of the value on the wire.
    pub open spec fn wire_name(self) -> Seq<char> {
        match self {
            FaceScope::Unspecified => "none"@,
            FaceScope::Local => "local"@,
            FaceScope::NonLocal => "non-local"@,
        }
    }

    /// The name of the value on the wire.
    pub fn name(&self) -> (r: &'static str)
        ensures
            r@ == self.wire_name(),
    {
        match self {
            FaceScope::Unspecified => "none",
            FaceScope::Local => "local",
            FaceScope::NonLocal => "non-local",
        }
    }

    /// The value that `name` names on the wire; a name outside the table
    /// names none.
    pub fn from_name(name: &str) -> (r: Option<FaceScope>)
        ensures
            match r {
                Some(v) => v.wire_name() == name@,
                None => forall|v: FaceScope| #[trigger] v.wire_name() != name@,
            },
    {
        if same_text(name, "none") {
            Some(FaceScope::Unspecified)
        } else if same_text(name, "local") {
            Some(FaceScope::Local)
        } else if same_text(name, "non-local") {
            Some(FaceScope::NonLocal)
        } else {
            None
        }
    }

    /// No two values share a name on the wire.
    pub proof fn law_names_differ(a: FaceScope, b: FaceScope)
        requires
            a.wire_name() == b.wire_name(),
        ensures
            a == b,
    {
        reveal_strlit("none");
        reveal_strlit("local");
        reveal_strlit("non-local");
        assert("none"@.len() == 4 && "none"@[0] == 'n' && "none"@[1] == 'o');
        assert("local"@.len() == 5 && "local"@[0] == 'l' && "local"@[1] == 'o');
        assert("non-local"@.len() == 9 && "non-local"@[0] == 'n' && "non-local"@[1] == 'o');
    }
}

/// How long a face is kept.
#[derive(Clone, Copy, Debug, PartialEq, Eq, Structural)]
pub enum FacePersistency {
    Unspecified,
    Persistent,
    OnDemand,
    Permanent,
}

impl FacePersistency {
    /// The name of the value on the wire.
    pub open spec fn wire_name(self) -> Seq<char> {
        match self {
            FacePersistency::Unspecified => "none"@,
            FacePersistency::Persistent => "persistent"@,
            FacePersistency::OnDemand => "on-demand"@,
            FacePersistency::Permanent => "permanent"@,
        }
    }

    /// The name of the value on the wire.
    pub fn name(&self) -> (r: &'static str)
        ensures
            r@ == self.wire_name(),
    {
        match self {
            FacePersistency::Unspecified => "none",
            FacePersistency::Persistent => "persistent",
            FacePersistency::OnDemand => "on-demand",
            FacePersistency::Permanent => "permanent",
        }
    }

    /// The value that `name` names on the wire; a name outside the table
    /// names none.
    pub fn from_name(name: &str) -> (r: Option<FacePersistency>)
        ensures
            match r {
                Some(v) => v.wire_name() == name@,
                None => forall|v: FacePersistency| #[trigger] v.wire_name() != name@,
            },
    {
        if same_text(name, "none") {
            Some(FacePersistency::Unspecified)
        } else if same_text(name, "persistent") {
            Some(FacePersistency::Persistent)
        } else if same_text(name, "on-demand") {
            Some(FacePersistency::OnDemand)
        } else if same_text(name, "permanent") {
            Some(FacePersistency::Permanent)
        } else {
            None
        }
    }

    /// No two values share a name on the wire.
    pub proof fn law_names_differ(a: FacePersistency, b: FacePersistency)
        requires
            a.wire_name() == b.wire_name(),
        ensures
            a == b,
    {
        reveal_strlit("none");
        reveal_strlit("persistent");
        reveal_strlit("on-demand");
        reveal_strlit("permanent");
        assert("none"@.len() == 4 && "none"@[0] == 'n' && "none"@[1] == 'o');
        assert("persistent"@.len() == 10 && "persistent"@[0] == 'p' && "persistent"@[1] == 'e');
        assert("on-demand"@.len() == 9 && "on-demand"@[0] == 'o' && "on-demand"@[1] == 'n');
        assert("permanent"@.len() == 9 && "permanent"@[0] == 'p' && "permanent"@[1] == 'e');
    }
}

/// Who registered a route.
#[derive(Clone, Copy, Debug, PartialEq, Eq, Structural)]
pub enum RouteOrigin {
    Unspecified,
    App,
    AutoReg,
    Client,
    AutoConf,
    Nlsr,
    PrefixAnn,
    Static,
}

impl RouteOrigin {
    /// The name of the value on the wire.
    pub open spec fn wire_name(self) -> Seq<char> {
        match self {
            RouteOrigin::Unspecified => "none"@,
            RouteOrigin::App => "app"@,
            RouteOrigin::AutoReg => "auto-reg"@,
            RouteOrigin::Client => "client"@,
            RouteOrigin::AutoConf => "auto-conf"@,
            RouteOrigin::Nlsr => "nlsr"@,
            RouteOrigin::PrefixAnn => "prefix-ann"@,
            RouteOrigin::Static => "static"@,
        }
    }

    /// The name of the value on the wire.
    pub fn name(&self) -> (r: &'static str)
        ensures
            r@ == self.wire_name(),
    {
        match self {
            RouteOrigin::Unspecified => "none",
            RouteOrigin::App => "app",
            RouteOrigin::AutoReg => "auto-reg",
            RouteOrigin::Client => "client",
            RouteOrigin::AutoConf => "auto-conf",
            RouteOrigin::Nlsr => "nlsr",
            RouteOrigin::PrefixAnn => "prefix-ann",
            RouteOrigin::Static => "static",
        }
    }

    /// The value that `name` names on the wire; a name outside the table
    /// names none.
    pub fn from_name(name: &str) -> (r: Option<RouteOrigin>)
        ensures
            match r {
                Some(v) => v.wire_name() == name@,
                None => forall|v: RouteOrigin| #[trigger] v.wire_name() != name@,
            },
    {
        if same_text(name, "none") {
            Some(RouteOrigin::Unspecified)
        } else if same_text(name, "app") {
            Some(RouteOrigin::App)
        } else if same_text(name, "auto-reg") {
            Some(RouteOrigin::AutoReg)
        } else if same_text(name, "client") {
            Some(RouteOrigin::Client)
        } else if same_text(name, "auto-conf") {
            Some(RouteOrigin::AutoConf)
        } else if same_text(name, "nlsr") {
            Some(RouteOrigin::Nlsr)
        } else if same_text(name, "prefix-ann") {
            Some(RouteOrigin::PrefixAnn)
        } else if same_text(name, "static") {
            Some(RouteOrigin::Static)
        } else {
            None
        }
    }

    /// No two values share a name on the wire.
    pub proof fn law_names_differ(a: RouteOrigin, b: RouteOrigin)
        requires
            a.wire_name() == b.wire_name(),
        ensures
            a == b,
    {
        reveal_strlit("none");
        reveal_strlit("app");
        reveal_strlit("auto-reg");
        reveal_strlit("client");
        reveal_strlit("auto-conf");
        reveal_strlit("nlsr");
        reveal_strlit("prefix-ann");
        reveal_strlit("static");
        assert("none"@.len() == 4 && "none"@[0] == 'n' && "none"@[1] == 'o');
        assert("app"@.len() == 3 && "app"@[0] == 'a' && "app"@[1] == 'p');
        assert("auto-reg"@.len() == 8 && "auto-reg"@[0] == 'a' && "auto-reg"@[1] == 'u');
        assert("client"@.len() == 6 && "client"@[0] == 'c' && "client"@[1] == 'l');
        assert("auto-conf"@.len() == 9 && "auto-conf"@[0] == 'a' && "auto-conf"@[1] == 'u');
        assert("nlsr"@.len() == 4 && "nlsr"@[0] == 'n' && "nlsr"@[1] == 'l');
        assert("prefix-ann"@.len() == 10 && "prefix-ann"@[0] == 'p' && "prefix-ann"@[1] == 'r');
        assert("static"@.len() == 6 && "static"@[0] == 's' && "static"@[1] == 't');
    }
}

/// A prefix that can be reached through a face.
#[derive(Debug, PartialEq, Eq)]
pub struct Route {
    pub name: String,
    pub origin: RouteOrigin,
    /// Lower is preferred.
    pub cost: u64,
    /// 0 where the route does not expire.
    pub expiration_period_ms: u64,
    pub flags: u64,
}

/// One link endpoint of the agent, with its counters and routes.
#[derive(Debug, PartialEq, Eq)]
pub struct Face {
    pub id: u64,
    pub remote_uri: String,
    pub local_uri: String,
    pub link_type: LinkType,
    pub face_scope: FaceScope,
    pub face_persistency: FacePersistency,
    pub flags: u64,
    pub in_interests: u64,
    pub out_interests: u64,
    pub in_bytes: u64,
    pub out_bytes: u64,
    pub in_data: u64,
    pub out_data: u64,
    pub in_nacks: u64,
    pub out_nacks: u64,
    pub mtu: u64,
    pub default_congestion_threshold: u64,
    pub default_base_congestion_marking_interval_ns: u64,
    /// 0 where the face does not expire.
    pub expiration_period_ms: u64,
    pub routes: Vec<Route>,
}

/// A peer that the agent knows. Pier 0 is the agent's own node.
#[derive(Debug, PartialEq, Eq)]
pub struct Pier {
    pub id: u64,
    pub face_id: u64,
    pub prefix: String,
    pub ip: String,
    pub port: u64,
}

} // verus!
