use apex_ts::{ApexClass, ApexField, ApexMethod, ApexParameter, ApexParser, TypeScriptGenerator};

fn field(name: &str, ty: &str) -> ApexField {
    ApexField { name: name.to_string(), field_type: ty.to_string(), is_optional: false }
}

fn class(name: &str, fields: Vec<ApexField>, methods: Vec<ApexMethod>) -> ApexClass {
    ApexClass { name: name.to_string(), fields, methods }
}

#[test]
fn empty_record_list_renders_empty_text() {
    let gen = TypeScriptGenerator::new();
    assert_eq!(gen.generate(&vec![]), "");
}

#[test]
fn class_without_members_renders_empty_interface() {
    let gen = TypeScriptGenerator::new();
    let out = gen.generate(&vec![class("Empty", vec![], vec![])]);
    assert_eq!(out, "export interface Empty {\n}\n");
}

#[test]
fn single_field_renders_one_member_line() {
    let gen = TypeScriptGenerator::new();
    let out = gen.generate(&vec![class("UserDto", vec![field("name", "String")], vec![])]);
    assert_eq!(out, "export interface UserDto {\n  name: string;\n}\n");
}

#[test]
fn primitive_type_mapping_is_exact() {
    let gen = TypeScriptGenerator::new();
    let out = gen.generate(&vec![class(
        "AllTypes",
        vec![
            field("a", "String"),
            field("b", "Id"),
            field("c", "Integer"),
            field("d", "Long"),
            field("e", "Decimal"),
            field("f", "Double"),
            field("g", "Boolean"),
            field("h", "Date"),
            field("i", "Datetime"),
            field("j", "Custom__c"),
        ],
        vec![],
    )]);
    let expected = "export interface AllTypes {\n  a: string;\n  b: string;\n  c: number;\n  d: number;\n  e: number;\n  f: number;\n  g: boolean;\n  h: string;\n  i: string;\n  j: unknown;\n}\n";
    assert_eq!(out, expected);
}

#[test]
fn generic_type_mapping_is_exact() {
    let gen = TypeScriptGenerator::new();
    let out = gen.generate(&vec![class(
        "Generics",
        vec![
            field("xs", "List<String>"),
            field("ys", "Set<Integer>"),
            field("m", "Map<String, Integer>"),
            field("zs", "List<Account>"),
        ],
        vec![],
    )]);
    let expected = "export interface Generics {\n  xs: string[];\n  ys: number[];\n  m: Record<string, number>;\n  zs: unknown[];\n}\n";
    assert_eq!(out, expected);
}

#[test]
fn mapping_is_total_on_odd_tokens() {
    let gen = TypeScriptGenerator::new();
    let out = gen.generate(&vec![class(
        "Odd",
        vec![
            field("a", "Map<String>"),
            field("b", "Set< String >"),
            field("c", "Optional<String>"),
            field("d", "string"),
        ],
        vec![],
    )]);
    let expected = "export interface Odd {\n  a: unknown;\n  b: string[];\n  c: unknown;\n  d: unknown;\n}\n";
    assert_eq!(out, expected);
}

#[test]
fn method_signature_renders_exactly() {
    let gen = TypeScriptGenerator::new();
    let m = ApexMethod {
        name: "getNames".to_string(),
        return_type: "List<String>".to_string(),
        parameters: vec![ApexParameter {
            name: "limit".to_string(),
            param_type: "Integer".to_string(),
        }],
        is_static: true,
    };
    let out = gen.generate(&vec![class("Names", vec![], vec![m])]);
    assert_eq!(out, "export interface Names {\n  getNames(limit: number): string[];\n}\n");
}

#[test]
fn static_and_instance_methods_render_identically() {
    let gen = TypeScriptGenerator::new();
    let mk = |is_static: bool| ApexMethod {
        name: "ping".to_string(),
        return_type: "void".to_string(),
        parameters: vec![],
        is_static,
    };
    let a = gen.generate(&vec![class("A", vec![], vec![mk(true)])]);
    let b = gen.generate(&vec![class("A", vec![], vec![mk(false)])]);
    assert_eq!(a, b);
    assert_eq!(a, "export interface A {\n  ping(): void;\n}\n");
}

#[test]
fn multiple_parameters_are_comma_separated() {
    let gen = TypeScriptGenerator::new();
    let m = ApexMethod {
        name: "combine".to_string(),
        return_type: "Boolean".to_string(),
        parameters: vec![
            ApexParameter { name: "left".to_string(), param_type: "String".to_string() },
            ApexParameter { name: "right".to_string(), param_type: "Decimal".to_string() },
        ],
        is_static: false,
    };
    let out = gen.generate(&vec![class("Mixer", vec![], vec![m])]);
    assert_eq!(out, "export interface Mixer {\n  combine(left: string, right: number): boolean;\n}\n");
}

#[test]
fn blocks_are_separated_by_one_blank_line() {
    let gen = TypeScriptGenerator::new();
    let out = gen.generate(&vec![
        class("A", vec![field("x", "String")], vec![]),
        class("B", vec![], vec![]),
    ]);
    assert_eq!(out, "export interface A {\n  x: string;\n}\n\nexport interface B {\n}\n");
}

#[test]
fn rendering_is_deterministic() {
    let gen = TypeScriptGenerator::new();
    let records = || {
        vec![
            class("A", vec![field("x", "Integer")], vec![]),
            class("B", vec![field("y", "Map<Id, String>")], vec![]),
        ]
    };
    let first = gen.generate(&records());
    let second = TypeScriptGenerator::default().generate(&records());
    assert_eq!(first, second);
}

#[test]
fn fields_render_before_methods_in_record_order() {
    let gen = TypeScriptGenerator::new();
    let m = ApexMethod {
        name: "tally".to_string(),
        return_type: "Integer".to_string(),
        parameters: vec![],
        is_static: false,
    };
    let out = gen.generate(&vec![class("Ordered", vec![field("a", "String"), field("b", "Boolean")], vec![m])]);
    assert_eq!(out, "export interface Ordered {\n  a: string;\n  b: boolean;\n  tally(): number;\n}\n");
}

#[test]
fn pipeline_end_to_end() {
    let src = "/**\n * @tsexport\n */\npublic class UserDto {\n    @AuraEnabled\n    public String name;\n    public Integer age;\n    @AuraEnabled\n    public static List<String> getNames(Integer limit) {\n        return null;\n    }\n}\n";
    let parser = ApexParser::new();
    let record = parser.parse_file(src).unwrap().unwrap();
    let gen = TypeScriptGenerator::new();
    let out = gen.generate(&vec![record]);
    let expected = "export interface UserDto {\n  name: string;\n  getNames(limit: number): string[];\n}\n";
    assert_eq!(out, expected);
}
