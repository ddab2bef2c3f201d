//! Records as a reply spells them, with the enumerated fields by name, and
//! their way into the records that the client works on.

use crate::reply::DecodeError;
use crate::types::{Face, FacePersistency, FaceScope, LinkType, Route, RouteOrigin};
use vstd::prelude::*;

verus! {

/// A route as a reply spells it.
#[derive(Debug, PartialEq, Eq)]
pub struct WireRoute {
    pub name: String,
    pub origin: String,
    pub cost: u64,
    pub expiration_period_ms: u64,
    pub flags: u64,
}

/// A face as a reply spells it.
#[derive(Debug, PartialEq, Eq)]
pub struct WireFace {
    pub id: u64,
    pub remote_uri: String,
    pub local_uri: String,
    pub link_type: String,
    pub face_scope: String,
    pub face_persistency: String,
    pub flags: u64,
    pub in_interests: u64,
    pub out_interests: u64,
    pub in_bytes: u64,
    pub out_bytes: u64,
    pub in_data: u64,
    pub out_data: u64,
    pub in_nacks: u64,
    pub out_nacks: u64,
    pub mtu: u64,
    pub default_congestion_threshold: u64,
    pub default_base_congestion_marking_interval_ns: u64,
    pub expiration_period_ms: u64,
    pub routes: Vec<WireRoute>,
}

/// Whether `route` is what `wire` spells.
pub open spec fn route_spelled(wire: WireRoute, route: Route) -> bool {
    &&& route.name@ == wire.name@
    &&& route.origin.wire_name() == wire.origin@
    &&& route.cost == wire.cost
    &&& route.expiration_period_ms == wire.expiration_period_ms
    &&& route.flags == wire.flags
}

/// Whether `face` is what `wire` spells.
pub open spec fn face_spelled(wire: WireFace, face: Face) -> bool {
    &&& face.id == wire.id
    &&& face.remote_uri@ == wire.remote_uri@
    &&& face.local_uri@ == wire.local_uri@
    &&& face.link_type.wire_name() == wire.link_type@
    &&& face.face_scope.wire_name() == wire.face_scope@
    &&& face.face_persistency.wire_name() == wire.face_persistency@
    &&& face.flags == wire.flags
    &&& face.in_interests == wire.in_interests
    &&& face.out_interests == wire.out_interests
    &&& face.in_bytes == wire.in_bytes
    &&& face.out_bytes == wire.out_bytes
    &&& face.in_data == wire.in_data
    &&& face.out_data == wire.out_data
    &&& face.in_nacks == wire.in_nacks
    &&& face.out_nacks == wire.out_nacks
    &&& face.mtu == wire.mtu
    &&& face.default_congestion_threshold == wire.default_congestion_threshold
    &&& face.default_base_congestion_marking_interval_ns
        == wire.default_base_congestion_marking_interval_ns
    &&& face.expiration_period_ms == wire.expiration_period_ms
    &&& face.routes@.len() == wire.routes@.len()
    &&& forall|i: int|
        0 <= i < wire.routes@.len() ==> route_spelled(#[trigger] wire.routes@[i], face.routes@[i])
}

/// What is wrong with the origin of a route, if anything: its name is none
/// of the table.
pub open spec fn route_fault(wire: WireRoute) -> Option<Seq<char>> {
    if exists|v: RouteOrigin| #[trigger] v.wire_name() == wire.origin@ {
        None
    } else {
        Some("unknown route origin: "@ + wire.origin@)
    }
}

/// What is wrong with the first of `routes` that has a fault.
pub open spec fn routes_fault(routes: Seq<WireRoute>) -> Option<Seq<char>>
    decreases routes.len(),
{
    if routes.len() == 0 {
        None
    } else {
        match routes_fault(routes.drop_last()) {
            Some(detail) => Some(detail),
            None => route_fault(routes.last()),
        }
    }
}

/// What is wrong with a face as a reply spells it, if anything: the first
/// name, of link type, scope, persistency and then the origins of its
/// routes, that is none of its table.
pub open spec fn face_fault(wire: WireFace) -> Option<Seq<char>> {
    if !(exists|v: LinkType| #[trigger] v.wire_name() == wire.link_type@) {
        Some("unknown link type: "@ + wire.link_type@)
    } else if !(exists|v: FaceScope| #[trigger] v.wire_name() == wire.face_scope@) {
        Some("unknown face scope: "@ + wire.face_scope@)
    } else if !(exists|v: FacePersistency| #[trigger] v.wire_name() == wire.face_persistency@) {
        Some("unknown face persistency: "@ + wire.face_persistency@)
    } else {
        routes_fault(wire.routes@)
    }
}

fn unknown(what: &str, name: &str) -> (r: DecodeError)
    ensures
        r matches DecodeError::Malformed(detail) && detail@ == what@ + name@,
{
    let mut detail = what.to_owned();
    detail.append(name);
    DecodeError::Malformed(detail)
}

impl Route {
    /// The route that `wire` spells; none where its origin is no name of
    /// the table.
    pub fn from_wire(wire: &WireRoute) -> (r: Result<Route, DecodeError>)
        ensures
            match r {
                Ok(route) => route_fault(*wire).is_none() && route_spelled(*wire, route),
                Err(DecodeError::Malformed(detail)) => route_fault(*wire) == Some(detail@),
                Err(DecodeError::Agent(_)) => false,
            },
    {
        match RouteOrigin::from_name(wire.origin.as_str()) {
            Some(origin) => Ok(
                Route {
                    name: wire.name.clone(),
                    origin,
                    cost: wire.cost,
                    expiration_period_ms: wire.expiration_period_ms,
                    flags: wire.flags,
                },
            ),
            None => Err(unknown("unknown route origin: ", wire.origin.as_str())),
        }
    }

    /// The route as a reply spells it.
    pub fn to_wire(&self) -> (wire: WireRoute)
        ensures
            route_spelled(wire, *self),
    {
        WireRoute {
            name: self.name.clone(),
            origin: self.origin.name().to_owned(),
            cost: self.cost,
            expiration_period_ms: self.expiration_period_ms,
            flags: self.flags,
        }
    }
}

impl Face {
    /// The face that `wire` spells; none where one of its names is no name
    /// of its table.
    pub fn from_wire(wire: &WireFace) -> (r: Result<Face, DecodeError>)
        ensures
            match r {
                Ok(face) => face_fault(*wire).is_none() && face_spelled(*wire, face),
                Err(DecodeError::Malformed(detail)) => face_fault(*wire) == Some(detail@),
                Err(DecodeError::Agent(_)) => false,
            },
    {
        let link_type = match LinkType::from_name(wire.link_type.as_str()) {
            Some(v) => v,
            None => {
                return Err(unknown("unknown link type: ", wire.link_type.as_str()));
            },
        };
        let face_scope = match FaceScope::from_name(wire.face_scope.as_str()) {
            Some(v) => v,
            None => {
                return Err(unknown("unknown face scope: ", wire.face_scope.as_str()));
            },
        };
        let face_persistency = match FacePersistency::from_name(wire.face_persistency.as_str()) {
            Some(v) => v,
            None => {
                return Err(unknown("unknown face persistency: ", wire.face_persistency.as_str()));
            },
        };
        let mut routes: Vec<Route> = Vec::new();
        let mut i: usize = 0;
        while i < wire.routes.len()
            invariant
                i <= wire.routes@.len(),
                routes@.len() == i,
                link_type.wire_name() == wire.link_type@,
                face_scope.wire_name() == wire.face_scope@,
                face_persistency.wire_name() == wire.face_persistency@,
                routes_fault(wire.routes@.take(i as int)).is_none(),
                forall|j: int|
                    0 <= j < i ==> route_spelled(#[trigger] wire.routes@[j], routes@[j]),
            decreases wire.routes@.len() - i,
        {
            let ghost upto = wire.routes@.take(i + 1);
            assert(upto.drop_last() =~= wire.routes@.take(i as int));
            assert(upto.last() == wire.routes@[i as int]);
            match Route::from_wire(&wire.routes[i]) {
                Ok(route) => {
                    routes.push(route);
                },
                Err(e) => {
                    proof {
                        lemma_first_fault(wire.routes@, i + 1);
                    }
                    return Err(e);
                },
            }
            i += 1;
        }
        assert(wire.routes@.take(i as int) =~= wire.routes@);
        Ok(
            Face {
                id: wire.id,
                remote_uri: wire.remote_uri.clone(),
                local_uri: wire.local_uri.clone(),
                link_type,
                face_scope,
                face_persistency,
                flags: wire.flags,
                in_interests: wire.in_interests,
                out_interests: wire.out_interests,
                in_bytes: wire.in_bytes,
                out_bytes: wire.out_bytes,
                in_data: wire.in_data,
                out_data: wire.out_data,
                in_nacks: wire.in_nacks,
                out_nacks: wire.out_nacks,
                mtu: wire.mtu,
                default_congestion_threshold: wire.default_congestion_threshold,
                default_base_congestion_marking_interval_ns: wire.default_base_congestion_marking_interval_ns,
                expiration_period_ms: wire.expiration_period_ms,
                routes,
            },
        )
    }

    /// The face as a reply spells it.
    pub fn to_wire(&self) -> (wire: WireFace)
        ensures
            face_spelled(wire, *self),
    {
        let mut routes: Vec<WireRoute> = Vec::new();
        let mut i: usize = 0;
        while i < self.routes.len()
            invariant
                i <= self.routes@.len(),
                routes@.len() == i,
                forall|j: int| 0 <= j < i ==> route_spelled(#[trigger] routes@[j], self.routes@[j]),
            decreases self.routes@.len() - i,
        {
            routes.push(self.routes[i].to_wire());
            i += 1;
        }
        WireFace {
            id: self.id,
            remote_uri: self.remote_uri.clone(),
            local_uri: self.local_uri.clone(),
            link_type: self.link_type.name().to_owned(),
            face_scope: self.face_scope.name().to_owned(),
            face_persistency: self.face_persistency.name().to_owned(),
            flags: self.flags,
            in_interests: self.in_interests,
            out_interests: self.out_interests,
            in_bytes: self.in_bytes,
            out_bytes: self.out_bytes,
            in_data: self.in_data,
            out_data: self.out_data,
            in_nacks: self.in_nacks,
            out_nacks: self.out_nacks,
            mtu: self.mtu,
            default_congestion_threshold: self.default_congestion_threshold,
            default_base_congestion_marking_interval_ns: self.default_base_congestion_marking_interval_ns,
            expiration_period_ms: self.expiration_period_ms,
            routes,
        }
    }
}

/// A fault among the first `n` routes is the fault of the whole list.
proof fn lemma_first_fault(routes: Seq<WireRoute>, n: int)
    requires
        0 <= n <= routes.len(),
        routes_fault(routes.take(n)).is_some(),
    ensures
        routes_fault(routes) == routes_fault(routes.take(n)),
    decreases routes.len() - n,
{
    if n < routes.len() {
        let next = routes.take(n + 1);
        assert(next.drop_last() =~= routes.take(n));
        lemma_first_fault(routes, n + 1);
    } else {
        assert(routes.take(n) =~= routes);
    }
}

/// What spells a face has no fault: a face that the client writes, it
/// reads again.
pub proof fn law_spelled_is_read(wire: WireFace, face: Face)
    requires
        face_spelled(wire, face),
    ensures
        face_fault(wire).is_none(),
{
    assert(face.link_type.wire_name() == wire.link_type@);
    assert(face.face_scope.wire_name() == wire.face_scope@);
    assert(face.face_persistency.wire_name() == wire.face_persistency@);
    lemma_spelled_routes(wire.routes@, face.routes@, wire.routes@.len() as int);
    assert(wire.routes@.take(wire.routes@.len() as int) =~= wire.routes@);
}

proof fn lemma_spelled_routes(wire: Seq<WireRoute>, routes: Seq<Route>, n: int)
    requires
        0 <= n <= wire.len(),
        routes.len() == wire.len(),
        forall|i: int| 0 <= i < wire.len() ==> route_spelled(#[trigger] wire[i], routes[i]),
    ensures
        routes_fault(wire.take(n)).is_none(),
    decreases n,
{
    if n > 0 {
        lemma_spelled_routes(wire, routes, n - 1);
        let upto = wire.take(n);
        assert(upto.drop_last() =~= wire.take(n - 1));
        assert(upto.last() == wire[n - 1]);
        assert(route_spelled(wire[n - 1], routes[n - 1]));
        assert(routes[n - 1].origin.wire_name() == wire[n - 1].origin@);
    }
}

/// The faces that `wire` spells, in their order; the fault of the first
/// face that has one where one has.
pub fn faces_from_wire(wire: &Vec<WireFace>) -> (r: Result<Vec<Face>, DecodeError>)
    ensures
        match r {
            Ok(faces) => {
                &&& faces@.len() == wire@.len()
                &&& forall|i: int|
                    0 <= i < wire@.len() ==> face_fault(#[trigger] wire@[i]).is_none()
                        && face_spelled(wire@[i], faces@[i])
            },
            Err(DecodeError::Malformed(detail)) => exists|i: int|
                0 <= i < wire@.len() && face_fault(#[trigger] wire@[i]) == Some(detail@) && forall|
                    j: int,
                | 0 <= j < i ==> face_fault(#[trigger] wire@[j]).is_none(),
            Err(DecodeError::Agent(_)) => false,
        },
{
    let mut faces: Vec<Face> = Vec::new();
    let mut i: usize = 0;
    while i < wire.len()
        invariant
            i <= wire@.len(),
            faces@.len() == i,
            forall|j: int|
                0 <= j < i ==> face_fault(#[trigger] wire@[j]).is_none() && face_spelled(
                    wire@[j],
                    faces@[j],
                ),
        decreases wire@.len() - i,
    {
        match Face::from_wire(&wire[i]) {
            Ok(face) => {
                faces.push(face);
            },
            Err(e) => {
                return Err(e);
            },
        }
        i += 1;
    }
    Ok(faces)
}

} // verus!
