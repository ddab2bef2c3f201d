use ahndn_client::dispatch::{
    carries_route, decode_as, exit_request, faces_with_id, faces_with_route, piers_request, plan,
    status_request, ExpectedShape, Plan, PlanError, Records, Selection,
};
use ahndn_client::parse::{parse_line, Command, Input, LineError, SyntaxError, SyntaxErrorKind};
use ahndn_client::render::{
    agent_error_line, all_positions, complaint, counter_lines, decode_error_line, face_line,
    faces_answer,
    heading_line, pier_line, piers_answer, records_answer, reference_lines, report, routes_line,
};
use ahndn_client::repl::{react, LineEvent, ReplAction};
use ahndn_client::reply::{decode, reports_error, DecodeError};
use ahndn_client::survey::{RouteSurvey, SurveyOutcome, SurveyStep};
use ahndn_client::transport::{
    assemble, frame, NextRead, ReadMode, ReadOutcome, ReplyAssembler,
};
use ahndn_client::types::{
    zero, Face, FacePersistency, FaceScope, LinkType, Pier, Route, RouteOrigin,
};
use ahndn_client::wire::{faces_from_wire, WireFace, WireRoute};

fn route_named(name: &str) -> Route {
    Route {
        name: name.to_string(),
        origin: RouteOrigin::Static,
        cost: 10,
        expiration_period_ms: zero(),
        flags: 1,
    }
}

fn face(id: u64, routes: &[&str]) -> Face {
    Face {
        id,
        remote_uri: format!("udp4://10.0.0.{}:6363", id),
        local_uri: "udp4://10.0.0.1:6363".to_string(),
        link_type: LinkType::PointToPoint,
        face_scope: FaceScope::NonLocal,
        face_persistency: FacePersistency::Persistent,
        flags: 0,
        in_interests: 1,
        out_interests: 2,
        in_bytes: 3,
        out_bytes: 4,
        in_data: 5,
        out_data: 6,
        in_nacks: 7,
        out_nacks: 8,
        mtu: 8800,
        default_congestion_threshold: 65536,
        default_base_congestion_marking_interval_ns: 100_000_000,
        expiration_period_ms: zero(),
        routes: routes.iter().map(|name| route_named(name)).collect(),
    }
}

fn pier(id: u64, face_id: u64) -> Pier {
    Pier { id, face_id, prefix: format!("/node/{}", id), ip: format!("10.0.0.{}", id), port: 6363 }
}

fn wire_face(id: u64, link_type: &str, origins: &[&str]) -> WireFace {
    let spelled = face(id, &[]).to_wire();
    WireFace {
        link_type: link_type.to_string(),
        routes: origins
            .iter()
            .map(|origin| WireRoute {
                name: "/a".to_string(),
                origin: origin.to_string(),
                cost: 1,
                expiration_period_ms: 0,
                flags: 0,
            })
            .collect(),
        ..spelled
    }
}

#[test]
fn an_error_report_is_not_decoded() {
    let raw = "ERROR: no such face";
    let decoded: Result<Vec<Face>, DecodeError> =
        decode(raw, |_| -> Result<Vec<Face>, String> { panic!("the decoder was asked") });
    assert_eq!(decoded, Err(DecodeError::Agent("ERROR: no such face".to_string())));
    assert!(reports_error(raw));
    assert!(reports_error("ERROR"));
    assert!(!reports_error("error: lower case"));
    assert!(!reports_error(" ERROR"));
    assert!(!reports_error("ERRO"));
    assert!(!reports_error("[]"));
}

#[test]
fn a_payload_is_what_the_decoder_makes_of_it() {
    let decoded = decode("[]", |text| Ok::<usize, String>(text.len()));
    assert_eq!(decoded, Ok(2));
    let decoded = decode("[", |text| Err::<usize, String>(format!("bad payload {}", text)));
    assert_eq!(decoded, Err(DecodeError::Malformed("bad payload [".to_string())));
}

#[test]
fn a_reply_is_decoded_as_what_was_asked_for() {
    let no_faces = |_: &str| -> Result<Vec<Face>, String> { panic!("faces were not asked for") };
    let no_piers = |_: &str| -> Result<Vec<Pier>, String> { panic!("piers were not asked for") };
    let faces = |_: &str| Ok(vec![face(1, &[])]);
    let piers = |_: &str| Ok(vec![pier(0, 0)]);
    assert_eq!(
        decode_as("[..]", ExpectedShape::Faces, faces, no_piers),
        Ok(Records::Faces(vec![face(1, &[])]))
    );
    assert_eq!(
        decode_as("[..]", ExpectedShape::Piers, no_faces, piers),
        Ok(Records::Piers(vec![pier(0, 0)]))
    );
    assert_eq!(
        decode_as("ERROR: no such face", ExpectedShape::Faces, no_faces, no_piers),
        Err(DecodeError::Agent("ERROR: no such face".to_string()))
    );
    assert_eq!(
        decode_as("ERROR", ExpectedShape::Piers, no_faces, no_piers),
        Err(DecodeError::Agent("ERROR".to_string()))
    );
    assert_eq!(
        decode_as("{", ExpectedShape::Piers, no_faces, |_: &str| Err("no list".to_string())),
        Err(DecodeError::Malformed("no list".to_string()))
    );
    assert_eq!(
        records_answer(Selection::AllPiers, &Records::Piers(vec![pier(0, 0)])),
        vec!["0: /node/0 LOCAL 10.0.0.0:6363".to_string()]
    );
    assert_eq!(
        records_answer(Selection::AllFaces, &Records::Faces(vec![face(1, &[])])).len(),
        2
    );
}

#[test]
fn plans() {
    let ask = |line: &str, selection| Ok(Plan::Ask { line: line.to_string(), selection });
    let input = |command, pier, face, route: Option<&str>| Input {
        command,
        pier,
        face,
        route: route.map(|r| r.to_string()),
    };
    assert_eq!(plan(&input(Command::Help, None, None, None)), Ok(Plan::Reference));
    assert_eq!(plan(&input(Command::Piers, None, None, None)), ask("piers", Selection::AllPiers));
    assert_eq!(
        plan(&input(Command::Status, Some(7), None, None)),
        ask("status 7", Selection::AllFaces)
    );
    assert_eq!(
        plan(&input(Command::Status, None, None, None)),
        ask("status 0", Selection::AllFaces)
    );
    assert_eq!(
        plan(&input(Command::PierStatus, Some(12), None, None)),
        ask("status 12", Selection::AllFaces)
    );
    assert_eq!(
        plan(&input(Command::Face, Some(3), Some(250), None)),
        ask("status 3", Selection::FaceWithId(250))
    );
    assert_eq!(
        plan(&input(Command::Stats, Some(0), Some(9), None)),
        ask("status 0", Selection::FaceWithId(9))
    );
    assert_eq!(
        plan(&input(Command::PierStats, Some(1), Some(2), None)),
        ask("status 1", Selection::FaceWithId(2))
    );
    assert_eq!(plan(&input(Command::Face, Some(3), None, None)), Err(PlanError::MissingFace));
    assert_eq!(
        plan(&input(Command::QueryRoute, None, None, Some("/a"))),
        Ok(Plan::Survey { line: "piers".to_string(), route: "/a".to_string() })
    );
    assert_eq!(
        plan(&input(Command::QueryRoute, None, None, None)),
        Err(PlanError::MissingRoute)
    );
    assert_eq!(status_request(u64::MAX), "status 18446744073709551615");
    assert_eq!(status_request(0), "status 0");
    assert_eq!(piers_request(), "piers");
    assert_eq!(exit_request(), "exit");
    assert_eq!(Selection::AllPiers.shape(), ExpectedShape::Piers);
    assert_eq!(Selection::AllFaces.shape(), ExpectedShape::Faces);
    assert_eq!(Selection::FaceWithId(1).shape(), ExpectedShape::Faces);
}

#[test]
fn a_request_parses_to_what_asked_for_it() {
    let line = status_request(41);
    assert_eq!(
        parse_line(&line),
        Ok(Input { command: Command::Status, pier: Some(41), face: None, route: None })
    );
}

#[test]
fn faces_are_picked_in_their_order() {
    let faces = vec![face(4, &["/a"]), face(7, &[]), face(4, &["/b", "/a"]), face(9, &["/ab"])];
    assert_eq!(faces_with_id(&faces, 4), vec![0, 2]);
    assert_eq!(faces_with_id(&faces, 7), vec![1]);
    assert_eq!(faces_with_id(&faces, 5), Vec::<usize>::new());
    assert_eq!(faces_with_id(&Vec::new(), 5), Vec::<usize>::new());
    assert_eq!(faces_with_route(&faces, "/a"), vec![0, 2]);
    assert_eq!(faces_with_route(&faces, "/ab"), vec![3]);
    assert_eq!(faces_with_route(&faces, "/"), Vec::<usize>::new());
    assert!(carries_route(&faces[2], "/b"));
    assert!(!carries_route(&faces[1], "/b"));
    assert!(!carries_route(&faces[0], "/A"));
}

#[test]
fn a_search_asks_every_pier_once() {
    let piers = vec![pier(0, 0), pier(5, 260)];
    let mut search = RouteSurvey::begin("/a", &piers);
    let mut asked = Vec::new();
    let mut outcomes = Vec::new();
    loop {
        let pier = match search.step() {
            SurveyStep::Finished => break,
            SurveyStep::Ask { position, pier, line } => {
                assert_eq!(line, format!("status {}", pier));
                assert_eq!(piers[position].id, pier);
                assert_eq!(position, asked.len());
                pier
            }
        };
        asked.push(pier);
        let reply = if pier == 0 {
            Ok(vec![face(1, &["/b"]), face(2, &["/a"])])
        } else {
            Err(DecodeError::Agent("ERROR: no such pier".to_string()))
        };
        outcomes.push(search.record(&reply));
    }
    assert_eq!(asked, vec![0, 5]);
    assert_eq!(
        outcomes,
        vec![
            SurveyOutcome::Matches(vec![1]),
            SurveyOutcome::Reported("ERROR: no such pier".to_string()),
        ]
    );
    assert_eq!(search.answered, 2);
    assert!(!search.abandoned);
    assert_eq!(search.record(&Ok(Vec::new())), SurveyOutcome::Unasked);
    assert_eq!(search.answered, 2);
}

#[test]
fn a_search_keeps_the_order_of_the_piers() {
    let piers = vec![pier(9, 1), pier(0, 0), pier(3, 2)];
    let mut search = RouteSurvey::begin("/a", &piers);
    let mut asked = Vec::new();
    while let SurveyStep::Ask { pier, .. } = search.step() {
        asked.push(pier);
        search.record(&Ok(Vec::new()));
    }
    assert_eq!(asked, vec![9, 0, 3]);
}

#[test]
fn a_search_ends_on_a_reply_that_cannot_be_decoded() {
    let piers = vec![pier(0, 0), pier(5, 260)];
    let mut search = RouteSurvey::begin("/a", &piers);
    assert!(matches!(search.step(), SurveyStep::Ask { pier: 0, .. }));
    let outcome = search.record(&Err(DecodeError::Malformed("expected value".to_string())));
    assert_eq!(outcome, SurveyOutcome::Abandoned("expected value".to_string()));
    assert_eq!(search.step(), SurveyStep::Finished);
    assert_eq!(search.answered, 0);
    let empty = RouteSurvey::begin("/a", &Vec::new());
    assert_eq!(empty.step(), SurveyStep::Finished);
}

#[test]
fn a_reply_in_two_reads_is_one_reply() {
    let whole = assemble(&vec![b"[{\"id\":1},{\"id\":2}]".to_vec(), Vec::new()]);
    let split = assemble(&vec![b"[{\"id\":1},".to_vec(), b"{\"id\":2}]".to_vec(), Vec::new()]);
    assert_eq!(whole, "[{\"id\":1},{\"id\":2}]");
    assert_eq!(split, whole);
    let within_a_character = assemble(&vec![vec![b'"', 0xc3], vec![0xa9, b'"'], Vec::new()]);
    assert_eq!(within_a_character, "\"\u{e9}\"");
}

#[test]
fn a_read_that_finds_nothing_ends_the_reply() {
    assert_eq!(assemble(&vec![b"ab".to_vec(), Vec::new(), b"cd".to_vec()]), "ab");
    assert_eq!(assemble(&vec![Vec::new(), b"cd".to_vec()]), "");
    assert_eq!(assemble(&Vec::new()), "");
    assert_eq!(assemble(&vec![b"ab".to_vec(), b"cd".to_vec()]), "abcd");
}

#[test]
fn the_first_read_waits() {
    let mut receiver = ReplyAssembler::new();
    assert_eq!(receiver.mode(), ReadMode::Blocking);
    assert!(receiver.accept(b"[]"));
    assert_eq!(receiver.mode(), ReadMode::NonBlocking);
    assert!(receiver.accept(b"\0"));
    assert!(!receiver.accept(b""));
    assert!(!receiver.accept(b"late"));
    assert!(receiver.complete);
    assert_eq!(receiver.bytes, b"[]\0".to_vec());
    assert_eq!(receiver.finish(), "[]");
}

#[test]
fn what_follows_a_read() {
    let mut receiver = ReplyAssembler::new();
    assert_eq!(
        receiver.after_read(&ReadOutcome::Bytes(b"[1,")),
        NextRead::Again(ReadMode::NonBlocking)
    );
    assert_eq!(
        receiver.after_read(&ReadOutcome::Bytes(b"2]")),
        NextRead::Again(ReadMode::NonBlocking)
    );
    assert_eq!(receiver.after_read(&ReadOutcome::NothingThere), NextRead::Finished);
    assert_eq!(receiver.finish(), "[1,2]");
    assert_eq!(receiver.after_read(&ReadOutcome::Bytes(b"late")), NextRead::Finished);
    assert_eq!(receiver.finish(), "[1,2]");

    let mut closed = ReplyAssembler::new();
    assert_eq!(closed.after_read(&ReadOutcome::Bytes(b"")), NextRead::Finished);
    assert_eq!(closed.finish(), "");

    let mut failing = ReplyAssembler::new();
    assert_eq!(failing.after_read(&ReadOutcome::Failed), NextRead::Aborted);
    assert!(!failing.started);
    assert!(!failing.complete);
    assert_eq!(
        failing.after_read(&ReadOutcome::Bytes(b"x")),
        NextRead::Again(ReadMode::NonBlocking)
    );
    assert_eq!(failing.after_read(&ReadOutcome::Failed), NextRead::Aborted);
    assert_eq!(failing.bytes, b"x".to_vec());
    assert!(!failing.complete);
}

#[test]
fn a_reply_is_read_as_text_without_the_nuls_around_it() {
    assert_eq!(assemble(&vec![b"\0\0hi\0there\0".to_vec()]), "hi\0there");
    assert_eq!(assemble(&vec![vec![0, b'h', b'i', 0xff, 0]]), "hi\u{fffd}");
    assert_eq!(assemble(&vec![vec![0, 0, 0]]), "");
    assert_eq!(assemble(&vec![vec![0xe2, 0x82, 0xac]]), "\u{20ac}");
}

#[test]
fn a_request_ends_with_a_newline() {
    assert_eq!(frame("status 0"), "status 0\n");
    assert_eq!(frame(""), "\n");
    assert_eq!(frame("exit"), "exit\n");
}

#[test]
fn names_on_the_wire() {
    let links = [
        (LinkType::Unspecified, "none"),
        (LinkType::PointToPoint, "point-to-point"),
        (LinkType::MultiAccess, "multi-access"),
        (LinkType::AdHoc, "ad-hoc"),
    ];
    for (value, name) in links {
        assert_eq!(value.name(), name);
        assert_eq!(LinkType::from_name(name), Some(value));
    }
    let scopes = [
        (FaceScope::Unspecified, "none"),
        (FaceScope::Local, "local"),
        (FaceScope::NonLocal, "non-local"),
    ];
    for (value, name) in scopes {
        assert_eq!(value.name(), name);
        assert_eq!(FaceScope::from_name(name), Some(value));
    }
    let kept = [
        (FacePersistency::Unspecified, "none"),
        (FacePersistency::Persistent, "persistent"),
        (FacePersistency::OnDemand, "on-demand"),
        (FacePersistency::Permanent, "permanent"),
    ];
    for (value, name) in kept {
        assert_eq!(value.name(), name);
        assert_eq!(FacePersistency::from_name(name), Some(value));
    }
    let origins = [
        (RouteOrigin::Unspecified, "none"),
        (RouteOrigin::App, "app"),
        (RouteOrigin::AutoReg, "auto-reg"),
        (RouteOrigin::Client, "client"),
        (RouteOrigin::AutoConf, "auto-conf"),
        (RouteOrigin::Nlsr, "nlsr"),
        (RouteOrigin::PrefixAnn, "prefix-ann"),
        (RouteOrigin::Static, "static"),
    ];
    for (value, name) in origins {
        assert_eq!(value.name(), name);
        assert_eq!(RouteOrigin::from_name(name), Some(value));
    }
    assert_eq!(LinkType::from_name("None"), None);
    assert_eq!(LinkType::from_name(""), None);
    assert_eq!(FaceScope::from_name("nonlocal"), None);
    assert_eq!(FacePersistency::from_name("on demand"), None);
    assert_eq!(RouteOrigin::from_name("autoreg"), None);
    assert_eq!(zero(), 0);
}

#[test]
fn records_from_the_wire() {
    let written = face(3, &["/a", "/b"]);
    assert_eq!(Face::from_wire(&written.to_wire()), Ok(face(3, &["/a", "/b"])));
    assert_eq!(written.to_wire().link_type, "point-to-point");
    assert_eq!(written.to_wire().routes[1].origin, "static");
    assert_eq!(
        Face::from_wire(&wire_face(1, "wireless", &["app"])),
        Err(DecodeError::Malformed("unknown link type: wireless".to_string()))
    );
    assert_eq!(
        Face::from_wire(&wire_face(1, "ad-hoc", &["app", "manual", "other"])),
        Err(DecodeError::Malformed("unknown route origin: manual".to_string()))
    );
    let mut odd = wire_face(1, "ad-hoc", &[]);
    odd.face_scope = "global".to_string();
    odd.face_persistency = "forever".to_string();
    assert_eq!(
        Face::from_wire(&odd),
        Err(DecodeError::Malformed("unknown face scope: global".to_string()))
    );
    odd.face_scope = "local".to_string();
    assert_eq!(
        Face::from_wire(&odd),
        Err(DecodeError::Malformed("unknown face persistency: forever".to_string()))
    );
    let decoded = faces_from_wire(&vec![wire_face(1, "none", &["nlsr"]), wire_face(2, "ad-hoc", &[])]);
    let decoded = decoded.unwrap();
    assert_eq!(decoded.len(), 2);
    assert_eq!(decoded[0].link_type, LinkType::Unspecified);
    assert_eq!(decoded[0].routes[0].origin, RouteOrigin::Nlsr);
    assert_eq!(decoded[1].id, 2);
    assert_eq!(
        faces_from_wire(&vec![wire_face(1, "none", &[]), wire_face(2, "x", &[]), wire_face(3, "y", &[])]),
        Err(DecodeError::Malformed("unknown link type: x".to_string()))
    );
}

#[test]
fn lines_for_a_face() {
    let shown = face(2, &["/a", "/b/c"]);
    assert_eq!(
        face_line(&shown),
        "2\tpoint-to-point\tnon-local\tudp4://10.0.0.1:6363 to udp4://10.0.0.2:6363"
    );
    assert_eq!(routes_line(&shown), "\tRoutes: /a, /b/c, ");
    assert_eq!(routes_line(&face(1, &[])), "\tRoutes: ");
    assert_eq!(
        counter_lines(&shown),
        vec![
            "    interests 1/2".to_string(),
            "    bytes     3/4".to_string(),
            "    data      5/6".to_string(),
            "    nacks     7/8".to_string(),
        ]
    );
}

#[test]
fn lines_for_a_reply() {
    let faces = vec![face(4, &["/a"]), face(7, &[]), face(4, &[])];
    let all = faces_answer(Selection::AllFaces, &faces);
    assert_eq!(all.len(), 6);
    assert_eq!(all[2], face_line(&faces[1]));
    assert_eq!(all[5], "\tRoutes: ");
    let some = faces_answer(Selection::FaceWithId(4), &faces);
    assert_eq!(some.len(), 12);
    assert_eq!(some[0], face_line(&faces[0]));
    assert_eq!(some[1], "\tRoutes: /a, ");
    assert_eq!(some[2], "    interests 1/2");
    assert_eq!(some[6], face_line(&faces[2]));
    assert_eq!(some[11], "    nacks     7/8");
    assert_eq!(faces_answer(Selection::FaceWithId(5), &faces), Vec::<String>::new());
    assert_eq!(faces_answer(Selection::AllPiers, &faces), Vec::<String>::new());
    assert_eq!(report(&faces, &vec![1, 9, 1], false).len(), 4);
    assert_eq!(all_positions(3), vec![0, 1, 2]);
    assert_eq!(all_positions(0), Vec::<usize>::new());
}

#[test]
fn lines_for_piers() {
    assert_eq!(pier_line(&pier(0, 0)), "0: /node/0 LOCAL 10.0.0.0:6363");
    assert_eq!(pier_line(&pier(5, 260)), "5: /node/5 (260) 10.0.0.5:6363");
    assert_eq!(heading_line(&pier(0, 0)), "pier: 0 (LOCAL): /node/0@10.0.0.0");
    assert_eq!(heading_line(&pier(5, 260)), "pier: 5: /node/5@10.0.0.5");
    assert_eq!(
        piers_answer(&vec![pier(5, 260), pier(0, 0)]),
        vec!["5: /node/5 (260) 10.0.0.5:6363".to_string(), "0: /node/0 LOCAL 10.0.0.0:6363".to_string()]
    );
}

#[test]
fn lines_for_what_went_wrong() {
    assert_eq!(agent_error_line("ERROR: no such face"), "Agent error: ERROR: no such face");
    assert_eq!(
        complaint(" piers extra ", &LineError::Unexpected("extra".to_string())),
        "Parse Error on input: piers extra, unexpected extra"
    );
    let refused = |kind| LineError::Syntax(SyntaxError { kind, position: 5 });
    assert_eq!(
        complaint("face x", &refused(SyntaxErrorKind::ExpectedNumber)),
        "Parse Error on input: face x, expected a number at 5"
    );
    assert_eq!(
        complaint("route", &refused(SyntaxErrorKind::ExpectedRoute)),
        "Parse Error on input: route, expected a route name at 5"
    );
    assert_eq!(
        complaint("bogus", &LineError::Syntax(SyntaxError { kind: SyntaxErrorKind::UnknownCommand, position: 0 })),
        "Parse Error on input: bogus, unknown command at 0"
    );
    assert_eq!(
        decode_error_line(&DecodeError::Agent("ERROR: busy".to_string())),
        "Agent error: ERROR: busy"
    );
    assert_eq!(
        decode_error_line(&DecodeError::Malformed("EOF while parsing".to_string())),
        "Malformed reply: EOF while parsing"
    );
    let reference = reference_lines();
    assert_eq!(reference.len(), 6);
    assert_eq!(reference[0], "Available Commands");
    assert_eq!(reference[3], "piers              : list known piers");
}

#[test]
fn what_a_session_does_with_a_line() {
    assert_eq!(
        react(&LineEvent::Line(" face 3 7 ".to_string())),
        ReplAction::Answer(Input {
            command: Command::Face,
            pier: Some(3),
            face: Some(7),
            route: None
        })
    );
    assert_eq!(
        react(&LineEvent::Line("piers extra".to_string())),
        ReplAction::Complain("Parse Error on input: piers extra, unexpected extra".to_string())
    );
    assert_eq!(
        react(&LineEvent::Line("face".to_string())),
        ReplAction::Complain("Parse Error on input: face, expected a number at 4".to_string())
    );
    assert_eq!(
        react(&LineEvent::Line("".to_string())),
        ReplAction::Complain("Parse Error on input: , unknown command at 0".to_string())
    );
    assert_eq!(
        react(&LineEvent::EndOfInput),
        ReplAction::Leave { notice: "Exiting...".to_string(), request: "exit".to_string() }
    );
    assert_eq!(
        react(&LineEvent::Interrupted),
        ReplAction::Leave { notice: "Interupted...".to_string(), request: "exit".to_string() }
    );
}
