use evenframe_core::typesync::flatbuffers_parser::parse_flatbuffers_source;

#[test]
fn test_parse_complete_schema() {
    let source = r#"
        namespace Game.Models;

        enum Status : byte {
            Active = 0,
            Inactive = 1,
            Pending = 2
        }

        table Player {
            id: uint64;
            name: string (validate: "minLength(1), maxLength(50)");
            email: string (validate: "email");
            level: int32 = 1;
            status: Status;
            scores: [int32];
        }

        table Team {
            name: string;
            members: [Player];
        }

        union GameEntity {
            Player,
            Team
        }

        root_type Player;
    "#;

    let result = parse_flatbuffers_source(source).unwrap();

    assert_eq!(result.namespace, Some("Game.Models".to_string()));
    assert!(result.structs.contains_key("Player"));
    assert!(result.structs.contains_key("Team"));
    assert!(result.enums.contains_key("Status"));
    assert!(result.enums.contains_key("GameEntity"));

    // Check Player fields
    let player = result.structs.get("Player").unwrap();
    assert_eq!(player.fields.len(), 6);

    // Check name field has validators
    let name_field = player.fields.iter().find(|f| f.field_name == "name").unwrap();
    assert!(!name_field.validators.is_empty());

    // Check email field has validators
    let email_field = player
        .fields
        .iter()
        .find(|f| f.field_name == "email")
        .unwrap();
    assert!(!email_field.validators.is_empty());
}

#[test]
fn test_parse_with_includes() {
    // Basic smoke test - includes are not fully implemented yet
    let source = r#"
        include "types.fbs";

        table User {
            name: string;
        }
    "#;

    let result = parse_flatbuffers_source(source).unwrap();
    assert!(result.structs.contains_key("User"));
}
