use johnbox::acl::{Acl, Interest, Principle, Role};
use johnbox::entity::{
    ChoiceError, Color, JBAttributes, JBCountGroup, JBDoodle, JBLine, JBPoint, JBSize, JBType,
    RenderError,
};
use johnbox::json::Json;

#[test]
fn kinds_have_names() {
    assert_eq!(JBType::Text.as_str(), "text");
    assert_eq!(JBType::AudiencePnCounter.as_str(), "audience/pn-counter");
    assert_eq!(JBType::AudienceGCounter.as_str(), "audience/g-counter");
    assert_eq!(JBType::AudienceCountGroup.as_str(), "audience/count-group");
    assert_eq!(JBType::from_str("doodle"), Ok(JBType::Doodle));
    assert_eq!(JBType::from_str("object"), Ok(JBType::Object));
    assert_eq!(JBType::from_str("audience/pn-counter"), Err(()));
}

#[test]
fn permissions_add_up() {
    let read = Interest { readable: true, writable: false };
    let write = Interest { readable: false, writable: true };
    let attributes = JBAttributes {
        locked: false,
        acl: vec![
            Acl { interest: read, principle: Principle::Role(Role::Player) },
            Acl { interest: write, principle: Principle::Id(2) },
        ],
    };
    assert_eq!(attributes.perms(Role::Player, 3), Some(read));
    assert_eq!(
        attributes.perms(Role::Player, 2),
        Some(Interest { readable: true, writable: true })
    );
    assert_eq!(attributes.perms(Role::Audience, 2), Some(write));
    assert_eq!(attributes.perms(Role::Audience, 100), None);
    assert_eq!(
        attributes.perms(Role::Host, 1),
        Some(Interest { readable: true, writable: true })
    );
    let default = JBAttributes::default();
    assert!(default.is_readable_by(Role::Audience, 100));
    assert!(!default.is_writable_by(Role::Player, 2));
    assert!(!default.locked);
}

#[test]
fn choices_are_named() {
    let options = vec![
        Json::Null,
        Json::Bool(true),
        Json::Bool(false),
        Json::Number { bits: 0, text: "3".to_owned() },
        Json::Text("a".to_owned()),
        Json::Text("3".to_owned()),
    ];
    let group = JBCountGroup::from_options(&options, Some(2)).unwrap();
    let mut names = Vec::new();
    let mut i = 0;
    while let Some((name, count)) = group.choice(i) {
        assert_eq!(count, 0);
        names.push(name.clone());
        i += 1;
    }
    assert_eq!(names, vec!["null", "true", "false", "3", "a"]);
    assert_eq!(group.max_votes, Some(2));
    let bad = vec![Json::Text("a".to_owned()), Json::Array("[]".to_owned())];
    assert_eq!(JBCountGroup::from_options(&bad, None).err(), Some(ChoiceError::Array));
    let bad = vec![Json::Object("{}".to_owned())];
    assert_eq!(JBCountGroup::from_options(&bad, None).err(), Some(ChoiceError::Object));
}

#[test]
fn votes_go_to_one_choice() {
    let options = vec![Json::Text("a".to_owned()), Json::Text("b".to_owned())];
    let mut group = JBCountGroup::from_options(&options, None).unwrap();
    group.add_votes(&"b".to_owned(), 4);
    group.add_votes(&"b".to_owned(), -1);
    group.add_votes(&"c".to_owned(), 9);
    let copy = group.clone();
    group.add_votes(&"a".to_owned(), 1);
    assert_eq!(copy.choice(0), Some((&"a".to_owned(), 0)));
    assert_eq!(copy.choice(1), Some((&"b".to_owned(), 3)));
    assert_eq!(group.choice(0), Some((&"a".to_owned(), 1)));
}

fn line(index: usize, layer: usize, points: usize) -> JBLine {
    JBLine {
        color: Color { r: 0, g: 0, b: 0, a: 255 },
        weight: 0,
        layer,
        points: vec![JBPoint { x: 0, y: 0 }; points],
        index,
    }
}

fn doodle(max_layer: usize, lines: Vec<JBLine>) -> JBDoodle {
    JBDoodle {
        colors: Vec::new(),
        live: false,
        max_points: 0,
        max_layer,
        size: JBSize::default(),
        weights: Some(vec![1, 2]),
        lines,
    }
}

#[test]
fn drawings_are_planned() {
    let d = doodle(0, vec![line(0, 0, 2), line(1, 7, 0), line(2, 0, 1)]);
    let plan = d.render().unwrap();
    assert_eq!(plan.layers, 1);
    assert_eq!(plan.strokes, vec![0, 2]);
    let d = doodle(3, vec![line(0, 2, 1)]);
    assert_eq!(d.render().unwrap().layers, 3);
    let d = doodle(2, vec![line(0, 0, 1), line(1, 2, 1), line(2, 5, 1)]);
    assert_eq!(d.render().err(), Some(RenderError::NoSuchLayer { layer: 2, max_layer: 2 }));
}

#[test]
fn lines_are_sorted_by_index() {
    let mut d = doodle(1, vec![line(9, 0, 1), line(4, 0, 1)]);
    d.add_line(line(6, 0, 1));
    let order: Vec<usize> = d.lines.iter().map(|l| l.index).collect();
    assert_eq!(order, vec![4, 6, 9]);
}

#[test]
fn entries_are_read() {
    let read = Interest { readable: true, writable: false };
    let both = Interest { readable: true, writable: true };
    let entry = |interest, principle| Some(Acl { interest, principle });
    assert_eq!(Acl::from_str("r *"), entry(read, Principle::All));
    assert_eq!(Acl::from_str("rw id:-12"), entry(both, Principle::Id(-12)));
    assert_eq!(Acl::from_str("r role:player"), entry(read, Principle::Role(Role::Player)));
    for bad in ["", "r", "x *", "r id:", "r id:1x", "r role:king", "r *:1", "rw  *"] {
        assert_eq!(Acl::from_str(bad), None);
    }
    for role in [Role::Host, Role::Player, Role::Audience, Role::Moderator] {
        assert_eq!(Role::from_str(role.as_str()), Some(role));
    }
}

#[test]
fn order_of_entries_does_not_matter() {
    let entries = ["r role:player", "w id:2", "rw id:3"];
    let list = |order: [usize; 3]| JBAttributes {
        locked: false,
        acl: order.iter().map(|i| Acl::from_str(entries[*i]).unwrap()).collect(),
    };
    for id in 0..5 {
        let expected = list([0, 1, 2]).perms(Role::Player, id);
        assert_eq!(list([2, 1, 0]).perms(Role::Player, id), expected);
        assert_eq!(list([1, 2, 0]).perms(Role::Player, id), expected);
    }
}

#[test]
fn lines_of_other_layers_may_move() {
    let on = |d: &JBDoodle, layer: usize| -> Vec<usize> {
        let plan = d.render().unwrap();
        plan.strokes
            .iter()
            .map(|i| &d.lines[*i])
            .filter(|l| l.layer == layer)
            .map(|l| l.index)
            .collect()
    };
    let a = doodle(2, vec![line(0, 0, 1), line(1, 1, 1), line(2, 0, 1), line(3, 1, 2)]);
    let b = doodle(
        2,
        vec![line(1, 1, 1), line(9, 7, 0), line(3, 1, 2), line(0, 0, 1), line(2, 0, 1)],
    );
    for layer in 0..2 {
        assert_eq!(on(&a, layer), on(&b, layer));
    }
    assert_eq!(on(&a, 0), vec![0, 2]);
    assert_eq!(on(&a, 1), vec![1, 3]);
}
