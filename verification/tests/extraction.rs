use apex_ts::{ApexParser, ExtractError};

fn parser() -> ApexParser {
    ApexParser::new()
}

#[test]
fn no_marker_is_not_applicable() {
    let src = "public class Plain {\n    @AuraEnabled\n    public String name;\n}\n";
    let r = parser().parse_file(src);
    assert!(matches!(r, Ok(None)));
}

#[test]
fn empty_text_is_not_applicable() {
    let r = parser().parse_file("");
    assert!(matches!(r, Ok(None)));
}

#[test]
fn marker_without_class_fails() {
    let src = "/**\n * @tsexport\n */\nclass Hidden {\n}\n";
    let r = parser().parse_file(src);
    assert!(matches!(r, Err(ExtractError::MissingClassDeclaration)));
}

#[test]
fn marker_and_class_are_found() {
    let src = "/** @tsexport */\npublic class UserDto {\n}\n";
    let r = parser().parse_file(src).unwrap().unwrap();
    assert_eq!(r.name, "UserDto");
    assert!(r.fields.is_empty());
    assert!(r.methods.is_empty());
}

#[test]
fn exposed_field_kept_unexposed_field_skipped() {
    let src = "/**\n * @tsexport\n */\npublic class UserDto {\n    @AuraEnabled\n    public String name;\n    public Integer age;\n}\n";
    let e = parser().parse_file_with_diagnostics(src).unwrap().unwrap();
    assert_eq!(e.class.fields.len(), 1);
    assert_eq!(e.class.fields[0].name, "name");
    assert_eq!(e.class.fields[0].field_type, "String");
    assert!(!e.class.fields[0].is_optional);
    assert_eq!(e.skipped_fields, vec!["age".to_string()]);
}

#[test]
fn inline_annotation_qualifies() {
    let src = "/** @tsexport */\npublic class A {\n    @AuraEnabled public String label;\n}\n";
    let r = parser().parse_file(src).unwrap().unwrap();
    assert_eq!(r.fields.len(), 1);
    assert_eq!(r.fields[0].name, "label");
}

#[test]
fn inline_annotation_with_arguments_qualifies() {
    let src =
        "/** @tsexport */\npublic class A {\n    @AuraEnabled(cacheable=true) public Integer total;\n}\n";
    let r = parser().parse_file(src).unwrap().unwrap();
    assert_eq!(r.fields.len(), 1);
    assert_eq!(r.fields[0].name, "total");
    assert_eq!(r.fields[0].field_type, "Integer");
}

#[test]
fn annotation_interleaved_with_doc_comment_qualifies() {
    let src = "/** @tsexport */\npublic class A {\n    /**\n     * The display name.\n     */\n    @AuraEnabled\n    public String name;\n}\n";
    let r = parser().parse_file(src).unwrap().unwrap();
    assert_eq!(r.fields.len(), 1);
    assert_eq!(r.fields[0].name, "name");
}

#[test]
fn unrelated_annotations_do_not_qualify() {
    let src = "/** @tsexport */\npublic class A {\n    @TestVisible\n    @Deprecated\n    public String hidden;\n}\n";
    let e = parser().parse_file_with_diagnostics(src).unwrap().unwrap();
    assert!(e.class.fields.is_empty());
    assert_eq!(e.skipped_fields, vec!["hidden".to_string()]);
}

#[test]
fn static_method_with_generic_return_is_extracted() {
    let src = "/** @tsexport */\npublic class Names {\n    @AuraEnabled\n    public static List<String> getNames(Integer limit) {\n        return null;\n    }\n}\n";
    let r = parser().parse_file(src).unwrap().unwrap();
    assert_eq!(r.methods.len(), 1);
    let m = &r.methods[0];
    assert_eq!(m.name, "getNames");
    assert_eq!(m.return_type, "List<String>");
    assert!(m.is_static);
    assert_eq!(m.parameters.len(), 1);
    assert_eq!(m.parameters[0].param_type, "Integer");
    assert_eq!(m.parameters[0].name, "limit");
}

#[test]
fn instance_method_without_parameters() {
    let src = "/** @tsexport */\npublic class A {\n    @AuraEnabled\n    public void refresh() {\n    }\n}\n";
    let r = parser().parse_file(src).unwrap().unwrap();
    assert_eq!(r.methods.len(), 1);
    assert_eq!(r.methods[0].name, "refresh");
    assert_eq!(r.methods[0].return_type, "void");
    assert!(!r.methods[0].is_static);
    assert!(r.methods[0].parameters.is_empty());
}

#[test]
fn unexposed_method_is_skipped_with_diagnostic() {
    let src = "/** @tsexport */\npublic class A {\n    public void internalOnly() {\n    }\n}\n";
    let e = parser().parse_file_with_diagnostics(src).unwrap().unwrap();
    assert!(e.class.methods.is_empty());
    assert_eq!(e.skipped_methods, vec!["internalOnly".to_string()]);
}

#[test]
fn member_order_follows_source_order() {
    let src = "/** @tsexport */\npublic class A {\n    @AuraEnabled\n    public String first;\n    @AuraEnabled\n    public Integer second;\n    @AuraEnabled\n    public Boolean third;\n}\n";
    let r = parser().parse_file(src).unwrap().unwrap();
    let names: Vec<&str> = r.fields.iter().map(|f| f.name.as_str()).collect();
    assert_eq!(names, vec!["first", "second", "third"]);
}

#[test]
fn malformed_parameter_segment_is_dropped() {
    let src = "/** @tsexport */\npublic class A {\n    @AuraEnabled\n    public void doIt(Integer a, b) {\n    }\n}\n";
    let r = parser().parse_file(src).unwrap().unwrap();
    assert_eq!(r.methods.len(), 1);
    let m = &r.methods[0];
    assert_eq!(m.parameters.len(), 1);
    assert_eq!(m.parameters[0].param_type, "Integer");
    assert_eq!(m.parameters[0].name, "a");
}

#[test]
fn parse_parameters_splits_and_drops() {
    let p = parser();
    let ps = p.parse_parameters("Integer a, b");
    assert_eq!(ps.len(), 1);
    assert_eq!(ps[0].param_type, "Integer");
    assert_eq!(ps[0].name, "a");

    let empty = p.parse_parameters("");
    assert!(empty.is_empty());

    let blank = p.parse_parameters("   ");
    assert!(blank.is_empty());

    let two = p.parse_parameters("String name, Boolean flag");
    assert_eq!(two.len(), 2);
    assert_eq!(two[0].param_type, "String");
    assert_eq!(two[0].name, "name");
    assert_eq!(two[1].param_type, "Boolean");
    assert_eq!(two[1].name, "flag");

    // Splitting on every comma cuts a generic argument list apart: the
    // half without two tokens is dropped, the rest is taken verbatim.
    let generic = p.parse_parameters("Map<Id, Account> rows");
    assert_eq!(generic.len(), 1);
    assert_eq!(generic[0].param_type, "Account>");
    assert_eq!(generic[0].name, "rows");
}

#[test]
fn parse_files_collects_in_order_and_skips_out_of_scope() {
    let files = vec![
        (
            "a.cls".to_string(),
            "/** @tsexport */\npublic class A {\n}\n".to_string(),
        ),
        ("plain.cls".to_string(), "public class Plain {\n}\n".to_string()),
        (
            "b.cls".to_string(),
            "/** @tsexport */\npublic class B {\n}\n".to_string(),
        ),
    ];
    let r = parser().parse_files(&files).unwrap();
    let names: Vec<&str> = r.iter().map(|c| c.name.as_str()).collect();
    assert_eq!(names, vec!["A", "B"]);
}

#[test]
fn parse_files_reports_failing_path() {
    let files = vec![
        (
            "ok.cls".to_string(),
            "/** @tsexport */\npublic class Ok {\n}\n".to_string(),
        ),
        (
            "bad.cls".to_string(),
            "/** @tsexport */\n// no class here\n".to_string(),
        ),
    ];
    let e = parser().parse_files(&files).unwrap_err();
    assert_eq!(e.path, "bad.cls");
    assert!(matches!(e.error, ExtractError::MissingClassDeclaration));
}

#[test]
fn no_qualifying_classes_yields_empty_list() {
    let files = vec![
        ("a.cls".to_string(), "public class A {\n}\n".to_string()),
        ("b.cls".to_string(), "// just a comment\n".to_string()),
    ];
    let r = parser().parse_files(&files).unwrap();
    assert!(r.is_empty());
}

#[test]
fn marker_anywhere_in_doc_comment_counts() {
    let src = "/**\n * Synced to the web client.\n * @tsexport\n * @author someone\n */\npublic class Synced {\n}\n";
    let r = parser().parse_file(src).unwrap().unwrap();
    assert_eq!(r.name, "Synced");
}

#[test]
fn inline_annotated_neighbor_does_not_expose_next_member() {
    let src = "/** @tsexport */\npublic class Person {\n    @AuraEnabled public String name;\n    public Integer age;\n}";
    let e = parser().parse_file_with_diagnostics(src).unwrap().unwrap();
    assert_eq!(e.class.name, "Person");
    assert_eq!(e.class.fields.len(), 1);
    assert_eq!(e.class.fields[0].name, "name");
    assert_eq!(e.class.fields[0].field_type, "String");
    assert!(e.class.methods.is_empty());
    assert_eq!(e.skipped_fields, vec!["age".to_string()]);
    let gen = apex_ts::TypeScriptGenerator::new();
    let out = gen.generate(&vec![e.class]);
    assert_eq!(out, "export interface Person {\n  name: string;\n}\n");
}

#[test]
fn second_declaration_on_same_line_is_not_exposed() {
    let src = "/** @tsexport */\npublic class A {\n    @AuraEnabled public String a; public Integer b;\n}";
    let e = parser().parse_file_with_diagnostics(src).unwrap().unwrap();
    assert_eq!(e.class.fields.len(), 1);
    assert_eq!(e.class.fields[0].name, "a");
    assert_eq!(e.skipped_fields, vec!["b".to_string()]);
}

#[test]
fn preceding_block_reaches_across_another_inline_annotation() {
    let src = "/** @tsexport */\npublic class A {\n    @AuraEnabled\n    @TestVisible public String x;\n}";
    let r = parser().parse_file(src).unwrap().unwrap();
    assert_eq!(r.fields.len(), 1);
    assert_eq!(r.fields[0].name, "x");
}

#[test]
fn declaration_line_ends_annotation_block() {
    let src = "/** @tsexport */\npublic class A {\n    @AuraEnabled\n    public String a;\n    public Integer b;\n}";
    let e = parser().parse_file_with_diagnostics(src).unwrap().unwrap();
    assert_eq!(e.class.fields.len(), 1);
    assert_eq!(e.class.fields[0].name, "a");
    assert_eq!(e.skipped_fields, vec!["b".to_string()]);
}

#[test]
fn annotation_with_trailing_content_does_not_form_a_block_line() {
    let src = "/** @tsexport */\npublic class A {\n    @AuraEnabled int helper = 0;\n    public String y;\n}";
    let e = parser().parse_file_with_diagnostics(src).unwrap().unwrap();
    assert!(e.class.fields.is_empty());
    assert_eq!(e.skipped_fields, vec!["y".to_string()]);
}

#[test]
fn trailing_comment_on_declaration_line_ends_the_block() {
    let src = "/** @tsexport */\npublic class A {\n    /** doc */\n    @AuraEnabled\n    public Integer a; /* x */\n    public String y;\n}";
    let e = parser().parse_file_with_diagnostics(src).unwrap().unwrap();
    assert_eq!(e.class.fields.len(), 1);
    assert_eq!(e.class.fields[0].name, "a");
    assert_eq!(e.skipped_fields, vec!["y".to_string()]);
}

#[test]
fn multiline_doc_comment_below_annotation_still_qualifies() {
    let src = "/** @tsexport */\npublic class A {\n    @AuraEnabled\n    /**\n     * note\n     */\n    public Integer a;\n}";
    let r = parser().parse_file(src).unwrap().unwrap();
    assert_eq!(r.fields.len(), 1);
    assert_eq!(r.fields[0].name, "a");
}

#[test]
fn one_line_doc_comment_does_not_bridge_past_a_declaration() {
    let src = "/** @tsexport */\npublic class A {\n    @AuraEnabled\n    public Integer a;\n    /** note */\n    public String y;\n}";
    let e = parser().parse_file_with_diagnostics(src).unwrap().unwrap();
    assert_eq!(e.class.fields.len(), 1);
    assert_eq!(e.class.fields[0].name, "a");
    assert_eq!(e.skipped_fields, vec!["y".to_string()]);
}

#[test]
fn class_declaration_must_start_a_line() {
    let src = "/** @tsexport */\nsomething public class NotAnchored {\n}\n";
    let r = parser().parse_file(src);
    assert!(matches!(r, Err(ExtractError::MissingClassDeclaration)));
}

#[test]
fn first_class_declaration_names_the_record() {
    let src = "/** @tsexport */\npublic class First {\n}\npublic class Second {\n}\n";
    let r = parser().parse_file(src).unwrap().unwrap();
    assert_eq!(r.name, "First");
}

#[test]
fn indented_class_declaration_is_found() {
    let src = "/** @tsexport */\n    public class Indented {\n}\n";
    let r = parser().parse_file(src).unwrap().unwrap();
    assert_eq!(r.name, "Indented");
}

#[test]
fn default_parser_works() {
    let p = ApexParser::default();
    let r = p.parse_file("/** @tsexport */\npublic class D {\n}\n").unwrap().unwrap();
    assert_eq!(r.name, "D");
}
