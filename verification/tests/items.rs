use sourcepawn_lsp::options::Options;
use sourcepawn_lsp::parser::methodmap_parser::{parse_methodmap, read_methodmap_members, MethodmapMember};
use sourcepawn_lsp::range::{Position, Range};
use sourcepawn_lsp::spitem::enum_member_item::EnumMemberItem;
use sourcepawn_lsp::spitem::items::{DefineItem, EnumItem, FunctionItem, IncludeItem, VariableItem};
use sourcepawn_lsp::spitem::methodmap_item::MethodmapItem;
use sourcepawn_lsp::spitem::property_item::PropertyItem;
use sourcepawn_lsp::spitem::{get_items_from_position, CompletionKind, Description, Location, SPItem};
use sourcepawn_lsp::store::{get_all_items, get_included_files};

fn line(number: u32, from: u32, to: u32) -> Range {
    Range::new(Position::new(number, from), Position::new(number, to))
}

fn description(deprecated: Option<&str>) -> Description {
    Description { text: "about".to_string(), deprecated: deprecated.map(|reason| reason.to_string()) }
}

fn an_enum(name: &str) -> SPItem {
    SPItem::Enum(EnumItem {
        name: name.to_string(),
        range: line(1, 5, 10),
        full_range: Range::new(Position::new(1, 0), Position::new(4, 1)),
        description: description(None),
        uri: "file:///a.sp".to_string(),
        references: vec![],
    })
}

fn a_methodmap(name: &str, parent: Option<SPItem>) -> SPItem {
    SPItem::Methodmap(MethodmapItem {
        name: name.to_string(),
        parent: parent.map(Box::new),
        tmp_parent: None,
        range: line(6, 10, 13),
        full_range: Range::new(Position::new(6, 0), Position::new(9, 1)),
        description: description(None),
        uri: "file:///a.sp".to_string(),
        references: vec![],
    })
}

fn a_member(parent: SPItem) -> EnumMemberItem {
    EnumMemberItem {
        name: "Plugin_Continue".to_string(),
        range: line(2, 1, 16),
        parent: Box::new(parent),
        description: description(None),
        uri: "file:///a.sp".to_string(),
        references: vec![],
    }
}

fn a_property(deprecated: Option<&str>) -> PropertyItem {
    PropertyItem {
        name: "Length".to_string(),
        parent: Box::new(a_methodmap("List", None)),
        type_: "int".to_string(),
        range: line(7, 14, 20),
        full_range: Range::new(Position::new(7, 1), Position::new(8, 2)),
        description: description(deprecated),
        uri: "file:///a.sp".to_string(),
        references: vec![],
    }
}

#[test]
fn items_tell_their_name_type_and_parent() {
    let member = SPItem::EnumMember(a_member(an_enum("Action")));
    assert_eq!(member.name(), "Plugin_Continue");
    assert_eq!(member.type_(), "Action");
    assert_eq!(member.parent().expect("a parent").name(), "Action");
    assert_eq!(member.range(), Some(line(2, 1, 16)));
    assert_eq!(member.full_range(), Some(line(2, 1, 16)));
    assert_eq!(member.uri(), "file:///a.sp");
    assert_eq!(member.description().expect("a description").text, "about");
    let property = SPItem::Property(a_property(None));
    assert_eq!(property.type_(), "int");
    assert_eq!(property.parent().expect("a parent").name(), "List");
    assert_eq!(property.full_range(), Some(Range::new(Position::new(7, 1), Position::new(8, 2))));
    let an_enum = an_enum("Action");
    assert_eq!(an_enum.type_(), "Action");
    assert!(an_enum.parent().is_none());
    let define = SPItem::Define(DefineItem {
        name: "FOO".to_string(),
        range: line(0, 8, 11),
        full_range: line(0, 0, 14),
        description: description(None),
        uri: "file:///a.sp".to_string(),
        references: vec![],
    });
    assert_eq!(define.type_(), "");
    assert_eq!(define.full_range(), Some(line(0, 0, 14)));
    let included = SPItem::Include(IncludeItem {
        name: "sourcemod".to_string(),
        range: line(0, 10, 19),
        uri: "file:///a.sp".to_string(),
    });
    assert_eq!(included.type_(), "");
    assert!(included.description().is_none());
    assert!(included.references().is_none());
}

#[test]
fn references_leave_out_the_declaration() {
    let mut item = an_enum("Action");
    item.push_reference(Location { uri: "file:///a.sp".to_string(), range: line(1, 5, 10) });
    assert_eq!(item.references().expect("references").len(), 0);
    item.push_reference(Location { uri: "file:///b.sp".to_string(), range: line(1, 5, 10) });
    item.push_reference(Location { uri: "file:///a.sp".to_string(), range: line(3, 5, 10) });
    assert_eq!(item.references().expect("references").len(), 2);
    assert_eq!(item.references().expect("references")[1].range, line(3, 5, 10));
    assert_eq!(item.name(), "Action");
    item.set_new_references(vec![Location { uri: "file:///c.sp".to_string(), range: line(0, 0, 1) }]);
    assert_eq!(item.references().expect("references").len(), 1);
    assert_eq!(item.references().expect("references")[0].uri, "file:///c.sp");
    let mut included = SPItem::Include(IncludeItem {
        name: "sourcemod".to_string(),
        range: line(0, 10, 19),
        uri: "file:///a.sp".to_string(),
    });
    included.push_reference(Location { uri: "file:///b.sp".to_string(), range: line(1, 5, 10) });
    included.set_new_references(vec![]);
    assert!(included.references().is_none());
}

#[test]
fn parameters_go_to_functions_only() {
    let parameter = || {
        SPItem::Variable(VariableItem {
            name: "client".to_string(),
            type_: "int".to_string(),
            range: line(3, 9, 15),
            description: description(None),
            uri: "file:///a.sp".to_string(),
            references: vec![],
            parent: None,
        })
    };
    let mut function = SPItem::Function(FunctionItem {
        name: "OnPluginStart".to_string(),
        type_: "void".to_string(),
        range: line(3, 5, 18),
        full_range: Range::new(Position::new(3, 0), Position::new(5, 1)),
        description: description(None),
        uri: "file:///a.sp".to_string(),
        references: vec![],
        parent: None,
        params: vec![],
    });
    function.push_params(parameter());
    match &function {
        SPItem::Function(item) => assert_eq!(item.params.len(), 1),
        other => panic!("unexpected item: {:?}", other),
    }
    assert_eq!(function.type_(), "void");
    let mut other = an_enum("Action");
    other.push_params(parameter());
    assert_eq!(other.name(), "Action");
}

#[test]
fn items_are_written_as_in_code() {
    assert_eq!(a_member(an_enum("Action")).formatted_text(), "Action::Plugin_Continue");
    assert_eq!(a_member(an_enum("Enum#1")).formatted_text(), "Plugin_Continue");
    assert_eq!(a_member(a_methodmap("List", None)).formatted_text(), "");
    assert_eq!(a_property(None).formatted_text(), "List Length");
    match a_methodmap("Foo", Some(a_methodmap("Bar", None))) {
        SPItem::Methodmap(item) => assert_eq!(item.formatted_text(), "methodmap Foo < Bar"),
        other => panic!("unexpected item: {:?}", other),
    }
    match a_methodmap("Foo ", None) {
        SPItem::Methodmap(item) => assert_eq!(item.formatted_text(), "methodmap Foo"),
        other => panic!("unexpected item: {:?}", other),
    }
}

#[test]
fn completions_carry_label_kind_and_detail() {
    let completion = a_member(an_enum("Action")).to_completion().expect("a completion");
    assert_eq!(completion.label, "Plugin_Continue");
    assert_eq!(completion.kind, CompletionKind::EnumMember);
    assert_eq!(completion.detail, Some("Action".to_string()));
    assert_eq!(completion.deprecated, None);
    assert!(a_property(None).to_completion(false).is_none());
    let completion = a_property(Some("use Size")).to_completion(true).expect("a completion");
    assert_eq!(completion.label, "Length");
    assert_eq!(completion.kind, CompletionKind::Property);
    assert_eq!(completion.detail, Some("List".to_string()));
    assert_eq!(completion.deprecated, Some(true));
    assert_eq!(a_property(None).to_completion(true).expect("a completion").deprecated, Some(false));
    match a_methodmap("Foo", None) {
        SPItem::Methodmap(item) => {
            let completion = item.to_completion(Some("a.sp".to_string())).expect("a completion");
            assert_eq!(completion.kind, CompletionKind::Class);
            assert_eq!(completion.detail, Some("a.sp".to_string()));
            let target = item.to_definition().expect("a target");
            assert_eq!(target.range, line(6, 10, 13));
            assert_eq!(target.uri, "file:///a.sp");
        }
        other => panic!("unexpected item: {:?}", other),
    }
    assert_eq!(a_property(None).to_definition().expect("a target").range, line(7, 14, 20));
    assert_eq!(a_member(an_enum("Action")).to_definition().expect("a target").range, line(2, 1, 16));
}

#[test]
fn items_are_found_by_position() {
    let mut used = an_enum("Used");
    used.push_reference(Location { uri: "file:///b.sp".to_string(), range: line(8, 2, 6) });
    let owned = vec![an_enum("Action"), a_methodmap("List", None), used];
    let items: Vec<&SPItem> = owned.iter().collect();
    assert_eq!(get_items_from_position(&items, Position::new(1, 7), "file:///a.sp"), vec![0, 2]);
    assert_eq!(get_items_from_position(&items, Position::new(6, 13), "file:///a.sp"), vec![1]);
    assert_eq!(get_items_from_position(&items, Position::new(8, 3), "file:///b.sp"), vec![2]);
    assert!(get_items_from_position(&items, Position::new(1, 7), "file:///b.sp").is_empty());
    assert!(get_items_from_position(&items, Position::new(1, 11), "file:///a.sp").is_empty());
}

#[test]
fn methodmap_is_read_from_its_parts() {
    let item = parse_methodmap(
        "Foo".to_string(),
        Some(" Bar ".to_string()),
        line(6, 10, 13),
        Range::new(Position::new(6, 0), Position::new(9, 1)),
        description(None),
        "file:///a.sp".to_string(),
    );
    match &item {
        SPItem::Methodmap(methodmap) => {
            assert_eq!(methodmap.tmp_parent, Some("Bar".to_string()));
            assert!(methodmap.parent.is_none());
            assert!(methodmap.references.is_empty());
        }
        other => panic!("unexpected item: {:?}", other),
    }
    assert_eq!(item.name(), "Foo");
    assert_eq!(item.type_(), "Foo");
    assert_eq!(read_methodmap_members("methodmap_method"), MethodmapMember::Method);
    assert_eq!(read_methodmap_members("methodmap_native_destructor"), MethodmapMember::Method);
    assert_eq!(read_methodmap_members("methodmap_property"), MethodmapMember::Property);
    assert_eq!(read_methodmap_members("comment"), MethodmapMember::Comment);
    assert_eq!(read_methodmap_members("preproc_pragma"), MethodmapMember::Pragma);
    assert_eq!(read_methodmap_members("methodmap"), MethodmapMember::Other);
    assert!(Options::default().includes_directories.is_empty());
}

#[test]
fn included_files_are_found_through_other_files() {
    let includes = vec![vec![1, 2], vec![3, 0], vec![], vec![1, 9], vec![0]];
    assert_eq!(get_included_files(&includes, 0), vec![0, 1, 2, 3]);
    assert_eq!(get_included_files(&includes, 2), vec![2]);
    assert_eq!(get_included_files(&includes, 4), vec![4, 0, 1, 2, 3]);
    assert_eq!(get_included_files(&includes, 3), vec![3, 1, 0, 2]);
}

#[test]
fn items_are_gathered_from_the_main_file_and_its_includes() {
    let owned = vec![
        vec![an_enum("A0"), an_enum("A1")],
        vec![an_enum("B0")],
        vec![an_enum("C0")],
    ];
    let items: Vec<&Vec<SPItem>> = owned.iter().collect();
    let includes = vec![vec![2], vec![0], vec![]];
    let names = |found: Vec<&SPItem>| found.iter().map(|item| item.name()).collect::<Vec<String>>();
    assert_eq!(names(get_all_items(&items, &includes, Some(0))), vec!["A0", "A1", "C0"]);
    assert_eq!(names(get_all_items(&items, &includes, Some(1))), vec!["B0", "A0", "A1", "C0"]);
    assert_eq!(names(get_all_items(&items, &includes, None)), vec!["A0", "A1", "B0", "C0"]);
    assert_eq!(names(get_all_items(&items, &includes, Some(7))), vec!["A0", "A1", "B0", "C0"]);
}

#[test]
fn items_answer_by_their_kind() {
    let member = SPItem::EnumMember(a_member(an_enum("Action")));
    let completion = member.to_completion(Some("a.sp".to_string()), false).expect("a completion");
    assert_eq!(completion.label, "Plugin_Continue");
    assert_eq!(completion.detail, Some("Action".to_string()));
    let hover = member.to_hover().expect("a hover");
    assert_eq!(hover.code, "Action::Plugin_Continue");
    assert_eq!(hover.description.to_md(), "about");
    assert_eq!(member.to_definition().expect("a target").range, line(2, 1, 16));
    let methodmap = a_methodmap("Foo", Some(a_methodmap("Bar", None)));
    let completion = methodmap.to_completion(Some("a.sp".to_string()), false).expect("a completion");
    assert_eq!(completion.kind, CompletionKind::Class);
    assert_eq!(completion.detail, Some("a.sp".to_string()));
    assert_eq!(methodmap.to_hover().expect("a hover").code, "methodmap Foo < Bar");
    assert_eq!(methodmap.to_definition().expect("a target").uri, "file:///a.sp");
    let property = SPItem::Property(a_property(Some("use Size")));
    assert!(property.to_completion(None, false).is_none());
    assert_eq!(property.to_completion(None, true).expect("a completion").deprecated, Some(true));
    let hover = property.to_hover().expect("a hover");
    assert_eq!(hover.code, "List Length");
    assert_eq!(hover.description.to_md(), "**DEPRECATED**: use Size\n\nabout");
    let other = an_enum("Action");
    assert!(other.to_completion(None, true).is_none());
    assert!(other.to_hover().is_none());
    assert!(other.to_definition().is_none());
}

#[test]
fn white_space_is_what_unicode_says() {
    let spaces: Vec<u32> = (0x09..=0x0D)
        .chain([0x20, 0x85, 0xA0, 0x1680])
        .chain(0x2000..=0x200A)
        .chain([0x2028, 0x2029, 0x202F, 0x205F, 0x3000])
        .collect();
    for code in 0..=0x10FFFFu32 {
        let c = match char::from_u32(code) {
            Some(c) => c,
            None => continue,
        };
        let item = parse_methodmap(
            String::new(),
            Some(format!("{}x{}", c, c)),
            line(0, 0, 0),
            line(0, 0, 0),
            Description { text: String::new(), deprecated: None },
            String::new(),
        );
        let kept = match item {
            SPItem::Methodmap(methodmap) => methodmap.tmp_parent.expect("a parent"),
            other => panic!("unexpected item: {:?}", other),
        };
        if spaces.contains(&code) {
            assert_eq!(kept, "x", "{:x}", code);
        } else {
            assert_eq!(kept, format!("{}x{}", c, c), "{:x}", code);
        }
    }
}

#[test]
fn trimming_keeps_what_stands_between_the_ends() {
    let inherits = |text: &str| match parse_methodmap(
        String::new(),
        Some(text.to_string()),
        line(0, 0, 0),
        line(0, 0, 0),
        Description { text: String::new(), deprecated: None },
        String::new(),
    ) {
        SPItem::Methodmap(methodmap) => methodmap.tmp_parent.expect("a parent"),
        other => panic!("unexpected item: {:?}", other),
    };
    assert_eq!(inherits(" \t a b \n"), "a b");
    assert_eq!(inherits("a"), "a");
    assert_eq!(inherits(""), "");
    assert_eq!(inherits(" \u{3000}\r\n"), "");
    assert_eq!(inherits("\u{a0}a\u{2003}b\u{85}"), "a\u{2003}b");
}
