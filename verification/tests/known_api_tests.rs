use milkdbg::known_api::{
    api_from_descriptor, arg_address, build_known_call, ArgBase, KnownApiArgLocation,
    KnownApiArgType, KnownApiDatabase, Value,
};

fn create_file_descriptor() -> Vec<(String, Option<String>)> {
    vec![
        (String::from("lpFileName"), Some(String::from("PSTR"))),
        (String::from("dwDesiredAccess"), Some(String::from("u32"))),
        (String::from("dwShareMode"), Some(String::from("u32"))),
        (String::from("lpSecurityAttributes"), Some(String::from("u32"))),
        (String::from("dwCreationDisposition"), Some(String::from("u32"))),
        (String::from("dwFlagsAndAttributes"), Some(String::from("u32"))),
        (String::from("hTemplateFile"), Some(String::from("u32"))),
    ]
}

#[test]
fn descriptor_places_arguments_on_the_stack() {
    let api = api_from_descriptor(String::from("CreateFileA"), create_file_descriptor());
    assert_eq!(api.name, "CreateFileA");
    assert_eq!(api.args.len(), 7);
    for (k, arg) in api.args.iter().enumerate() {
        let expected = -4 * (k as isize + 1);
        assert_eq!(arg.location, KnownApiArgLocation::Memory(ArgBase::Esp, expected));
    }
    assert_eq!(api.args[0].t, KnownApiArgType::UTF8String);
    assert_eq!(api.args[1].t, KnownApiArgType::U32);
    assert_eq!(api.args[0].name, "lpFileName");
}

#[test]
fn wide_string_parameters_are_recognized() {
    let api = api_from_descriptor(
        String::from("MessageBoxW"),
        vec![
            (String::from("hWnd"), Some(String::from("u32"))),
            (String::from("lpText"), Some(String::from("PWSTR"))),
            (String::from("extra"), None),
        ],
    );
    assert_eq!(api.args[0].t, KnownApiArgType::U32);
    assert_eq!(api.args[1].t, KnownApiArgType::UTF16String);
    assert_eq!(api.args[2].t, KnownApiArgType::U32); // no type name: a number
}

#[test]
fn argument_addresses_walk_up_the_stack() {
    let api = api_from_descriptor(String::from("CreateFileA"), create_file_descriptor());
    let esp = 0x0012_F000u32;
    // Parameter k lives at [esp + 4 * (k + 1)].
    for (k, arg) in api.args.iter().enumerate() {
        assert_eq!(arg_address(esp, &arg.location), 0x0012_F000 + 4 * (k + 1));
    }
}

#[test]
fn captured_call_keys_arguments_by_name_in_order() {
    let api = api_from_descriptor(String::from("CreateFileA"), create_file_descriptor());
    let values = vec![
        Value::String(String::from("C:\\x")),
        Value::U32(0x8000_0000),
        Value::U32(1),
        Value::U32(0),
        Value::U32(3),
        Value::U32(0x80),
        Value::U32(0),
    ];
    let call = build_known_call(&api, values);
    assert_eq!(call.name, "CreateFileA");
    assert_eq!(call.args.len(), 7);
    assert_eq!(call.args[0].0, "lpFileName");
    match &call.args[0].1 {
        Value::String(s) => assert_eq!(s, "C:\\x"),
        _ => panic!("expected a string"),
    }
    assert_eq!(call.args[1].0, "dwDesiredAccess");
    match call.args[1].1 {
        Value::U32(v) => assert_eq!(v, 2147483648),
        _ => panic!("expected a number"),
    }
}

#[test]
fn catalog_reads_descriptor_texts() {
    let text = String::from(
        "{\"Functions\": [\
           {\"Name\": \"CreateFileA\", \"Params\": [\
              {\"Name\": \"lpFileName\", \"Type\": {\"Name\": \"PSTR\"}},\
              {\"Name\": \"dwDesiredAccess\", \"Type\": {\"Name\": \"u32\"}}]},\
           {\"Name\": \"ExitProcess\", \"Params\": [\
              {\"Name\": \"uExitCode\", \"Type\": {\"Name\": \"u32\"}}]}]}",
    );
    let db = KnownApiDatabase::from_descriptor_texts(&vec![text]);
    assert_eq!(db.apis.len(), 2);
    let cf = db.get_by_name(&String::from("CreateFileA")).unwrap();
    assert_eq!(cf.args.len(), 2);
    assert_eq!(cf.args[0].t, KnownApiArgType::UTF8String);
    assert_eq!(cf.args[0].location, KnownApiArgLocation::Memory(ArgBase::Esp, -4));
    assert_eq!(cf.args[1].location, KnownApiArgLocation::Memory(ArgBase::Esp, -8));
    let ep = db.get_by_name(&String::from("ExitProcess")).unwrap();
    assert_eq!(ep.args.len(), 1);
    assert!(db.get_by_name(&String::from("NoSuchThing")).is_none());
}

#[test]
fn unreadable_descriptor_text_adds_nothing() {
    let db = KnownApiDatabase::from_descriptor_texts(&vec![String::from("not json at all")]);
    assert_eq!(db.apis.len(), 0);
}

#[test]
fn catalog_keeps_text_order_across_texts() {
    let t1 = String::from(
        "{\"Functions\": [{\"Name\": \"First\", \"Params\": []},           {\"Name\": \"Second\", \"Params\": [              {\"Name\": \"x\", \"Type\": {\"Name\": \"u32\"}}]}]}",
    );
    let t2 = String::from(
        "{\"Functions\": [{\"Name\": \"Third\", \"Params\": [              {\"Name\": \"s\", \"Type\": {\"Name\": \"PWSTR\"}},              {\"Name\": \"t\"}]}]}",
    );
    let db = KnownApiDatabase::from_descriptor_texts(&vec![t1, t2]);
    assert_eq!(db.apis.len(), 3);
    assert_eq!(db.apis[0].name, "First");
    assert_eq!(db.apis[0].args.len(), 0);
    assert_eq!(db.apis[1].name, "Second");
    assert_eq!(db.apis[1].args[0].name, "x");
    assert_eq!(db.apis[2].name, "Third");
    assert_eq!(db.apis[2].args[0].t, KnownApiArgType::UTF16String);
    assert_eq!(db.apis[2].args[1].t, KnownApiArgType::U32); // no type name
    assert_eq!(db.apis[2].args[1].location, KnownApiArgLocation::Memory(ArgBase::Esp, -8));
}
