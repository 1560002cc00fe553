use battletanks::validation::{
    ClientMessage, ClientMessageValidator, Reading, ServerMessage, ServerMessageValidator,
    ValidationConfig, ValidationResult,
};

fn readings(values: [i32; 3]) -> [Reading; 3] {
    [Reading::Finite(values[0]), Reading::Finite(values[1]), Reading::Finite(values[2])]
}

#[test]
fn test_valid_client_messages() {
    let mut validator = ClientMessageValidator::new();
    let player_id = "test_player";

    let valid_input = ClientMessage::PlayerInput {
        forward: true,
        backward: false,
        strafe_left: false,
        strafe_right: true,
        mouse_x: Reading::Finite(1500),
        mouse_y: Reading::Finite(-300),
    };

    let result = validator.validate(player_id, &valid_input);
    assert!(result.valid, "Valid PlayerInput should pass validation: {:?}", result.errors);

    let valid_fire = ClientMessage::FireCommand;
    let result = validator.validate(player_id, &valid_fire);
    assert!(result.valid, "Valid FireCommand should pass validation: {:?}", result.errors);

    let valid_chat = ClientMessage::ChatMessage { message: "Hello world!".to_string() };
    let result = validator.validate(player_id, &valid_chat);
    assert!(result.valid, "Valid ChatMessage should pass validation: {:?}", result.errors);

    let valid_ping = ClientMessage::Ping;
    let result = validator.validate(player_id, &valid_ping);
    assert!(result.valid, "Valid Ping should pass validation: {:?}", result.errors);
}

#[test]
fn test_invalid_client_messages() {
    let mut validator = ClientMessageValidator::new();
    let player_id = "test_player";

    let invalid_input = ClientMessage::PlayerInput {
        forward: true,
        backward: false,
        strafe_left: false,
        strafe_right: false,
        mouse_x: Reading::NotANumber,
        mouse_y: Reading::Infinite,
    };

    let result = validator.validate(player_id, &invalid_input);
    assert!(!result.valid, "PlayerInput with NaN values should fail validation");
    assert!(result.errors.iter().any(|e| e.contains("not finite")));

    let invalid_chat = ClientMessage::ChatMessage { message: "".to_string() };
    let result = validator.validate(player_id, &invalid_chat);
    assert!(!result.valid, "Empty ChatMessage should fail validation");
    assert!(result.errors.iter().any(|e| e.contains("cannot be empty")));

    let long_message = "a".repeat(501);
    let invalid_chat_long = ClientMessage::ChatMessage { message: long_message };
    let result = validator.validate(player_id, &invalid_chat_long);
    assert!(!result.valid, "Too long ChatMessage should fail validation");
    assert!(result.errors.iter().any(|e| e.contains("too long")));
}

#[test]
fn test_client_message_warnings() {
    let mut validator = ClientMessageValidator::new();
    let player_id = "test_player";

    let conflicting_input = ClientMessage::PlayerInput {
        forward: true,
        backward: true,
        strafe_left: true,
        strafe_right: true,
        mouse_x: Reading::Finite(0),
        mouse_y: Reading::Finite(0),
    };

    let result = validator.validate(player_id, &conflicting_input);
    assert!(result.valid, "Conflicting input should be valid but with warnings");
    assert!(!result.warnings.is_empty(), "Should have warnings for conflicting input");
    assert!(result.warnings.iter().any(|w| w.contains("forward and backward")));
    assert!(result.warnings.iter().any(|w| w.contains("strafe_left and strafe_right")));

    let deprecated_update = ClientMessage::PlayerUpdate {
        position: readings([0, 500, 0]),
        rotation: readings([0, 0, 0]),
        turret_rotation: readings([0, 1000, 0]),
    };

    let result = validator.validate(player_id, &deprecated_update);
    assert!(result.valid, "Deprecated PlayerUpdate should be valid");
    assert!(result.warnings.iter().any(|w| w.contains("deprecated")));
}

#[test]
fn test_rate_limiting() {
    let mut validator = ClientMessageValidator::new();
    let player_id = "spam_player";

    let input_msg = ClientMessage::PlayerInput {
        forward: true,
        backward: false,
        strafe_left: false,
        strafe_right: false,
        mouse_x: Reading::Finite(0),
        mouse_y: Reading::Finite(0),
    };

    for i in 0..70 {
        let result = validator.validate(player_id, &input_msg);
        if i < 60 {
            assert!(result.valid, "Message {} should be valid (under rate limit)", i);
        } else {
            assert!(!result.valid, "Message {} should fail (over rate limit)", i);
            assert!(result.errors.iter().any(|e| e.contains("Rate limit exceeded")));
        }
    }

    validator.reset_rate_limits();
    let result = validator.validate(player_id, &input_msg);
    assert!(result.valid, "After reset, should be able to send again");
}

#[test]
fn test_chat_validation() {
    let validator = ServerMessageValidator::new();

    let valid_chat = ServerMessage::ChatMessage {
        player_id: "player123".to_string(),
        message: "Hello everyone!".to_string(),
        timestamp: 1234567890,
    };

    let result = validator.validate(&valid_chat);
    assert!(result.valid, "Valid ChatMessage should pass validation: {:?}", result.errors);

    let invalid_chat_player = ServerMessage::ChatMessage {
        player_id: "".to_string(),
        message: "Hello".to_string(),
        timestamp: 1234567890,
    };

    let result = validator.validate(&invalid_chat_player);
    assert!(!result.valid, "ChatMessage with empty player_id should fail validation");
    assert!(result.errors.iter().any(|e| e.contains("cannot be empty")));

    let invalid_chat_message = ServerMessage::ChatMessage {
        player_id: "player123".to_string(),
        message: "".to_string(),
        timestamp: 1234567890,
    };

    let result = validator.validate(&invalid_chat_message);
    assert!(!result.valid, "ChatMessage with empty message should fail validation");
    assert!(result.errors.iter().any(|e| e.contains("cannot be empty")));

    let warning_chat = ServerMessage::ChatMessage {
        player_id: "player123".to_string(),
        message: "Hello".to_string(),
        timestamp: 0,
    };

    let result = validator.validate(&warning_chat);
    assert!(result.valid, "ChatMessage with zero timestamp should be valid but warn");
    assert!(result.warnings.iter().any(|w| w.contains("zero timestamp")));
}

#[test]
fn validation_result_collects_errors_and_warnings() {
    let clean = ValidationResult::success();
    assert!(clean.valid && clean.errors.is_empty() && clean.warnings.is_empty());
    let failed = ValidationResult::error("bad".to_string());
    assert!(!failed.valid);
    assert_eq!(failed.errors, vec!["bad".to_string()]);
    assert!(failed.warnings.is_empty());
    let mut result = ValidationResult::success().with_warning("w1".to_string());
    assert!(result.valid);
    assert_eq!(result.warnings, vec!["w1".to_string()]);
    result.add_warning("w2".to_string());
    assert!(result.valid);
    result.add_error("e1".to_string());
    result.add_error("e2".to_string());
    assert!(!result.valid);
    assert_eq!(result.errors, vec!["e1".to_string(), "e2".to_string()]);
    assert_eq!(result.warnings, vec!["w1".to_string(), "w2".to_string()]);
    let copy = result.clone();
    assert_eq!(copy.errors, result.errors);
    assert_eq!(copy.valid, result.valid);
}

#[test]
fn error_texts_name_the_value() {
    let mut validator = ClientMessageValidator::new();
    let mut result = ValidationResult::success();
    validator.validate_player_input(
        false,
        false,
        false,
        false,
        Reading::Finite(100_001),
        Reading::Finite(-100_001),
        &mut result,
    );
    assert_eq!(
        result.errors,
        vec![
            "Mouse X out of reasonable range: 100001".to_string(),
            "Mouse Y out of reasonable range: -100001".to_string()
        ]
    );
    let mut result = ValidationResult::success();
    validator.validate_player_input(
        false,
        false,
        false,
        false,
        Reading::Finite(100_000),
        Reading::Finite(-100_000),
        &mut result,
    );
    assert!(result.valid && result.errors.is_empty());
    let mut result = ValidationResult::success();
    validator.validate_player_input(
        false,
        false,
        false,
        false,
        Reading::NotANumber,
        Reading::NegativeInfinite,
        &mut result,
    );
    assert_eq!(
        result.errors,
        vec![
            "Mouse Y out of reasonable range: -inf".to_string(),
            "Mouse X is not finite: NaN".to_string(),
            "Mouse Y is not finite: -inf".to_string()
        ]
    );
    assert!(!result.valid);
    assert!(Reading::Infinite.exceeds(5) && !Reading::Infinite.is_finite());

    let mut result = ValidationResult::success();
    validator.validate_chat_message(&"é".repeat(251), &mut result);
    assert_eq!(result.errors, vec!["Chat message too long: 502 characters".to_string()]);
    let mut result = ValidationResult::success();
    validator.validate_chat_message(&"a".repeat(500), &mut result);
    assert!(result.valid);
    let mut result = ValidationResult::success();
    validator.validate_chat_message("line\nbreak\tand\u{7}bell", &mut result);
    assert!(result.valid);
    assert_eq!(result.warnings, vec!["Chat message contains control characters".to_string()]);
    let mut result = ValidationResult::success();
    validator.validate_chat_message("line\nbreak\tonly", &mut result);
    assert!(result.warnings.is_empty());

    let mut result = ValidationResult::success();
    validator.validate_bullet_hit("", 101, &mut result);
    assert_eq!(
        result.errors,
        vec!["Target player ID cannot be empty".to_string(), "Damage too high: 101".to_string()]
    );
    let mut result = ValidationResult::success();
    validator.validate_bullet_hit("x", 0, &mut result);
    assert!(result.valid);
    assert_eq!(result.warnings, vec!["Bullet hit with 0 damage".to_string()]);

    let mut result = ValidationResult::success();
    validator.validate_position_update(
        &readings([1_000_001, 0, -2_000_000]),
        &readings([0, 0, 0]),
        &readings([0, 0, 0]),
        &mut result,
    );
    assert_eq!(
        result.errors,
        vec![
            "Position[0] out of world bounds: 1000001".to_string(),
            "Position[2] out of world bounds: -2000000".to_string()
        ]
    );
    let mut result = ValidationResult::success();
    validator.validate_position_update(
        &[Reading::Infinite, Reading::Finite(1_000_000), Reading::NotANumber],
        &[Reading::Finite(0), Reading::NotANumber, Reading::Finite(0)],
        &[Reading::NegativeInfinite, Reading::Finite(7), Reading::Finite(0)],
        &mut result,
    );
    assert!(!result.valid);
    assert_eq!(
        result.errors,
        vec![
            "Position[0] is not finite: inf".to_string(),
            "Position[0] out of world bounds: inf".to_string(),
            "Position[2] is not finite: NaN".to_string(),
            "Rotation[1] is not finite: NaN".to_string(),
            "Turret rotation[0] is not finite: -inf".to_string()
        ]
    );

    for count in 1..=61u32 {
        match validator.check_rate_limit("p") {
            Ok(()) => assert!(count <= 60),
            Err(e) => {
                assert_eq!(count, 61);
                assert_eq!(e, "Rate limit exceeded: 61 messages/second");
            }
        }
    }
    assert!(validator.check_rate_limit("q").is_ok());
}

#[test]
fn server_messages_are_checked_by_kind() {
    let validator = ServerMessageValidator::new();
    let moved = ServerMessage::PlayerMoved {
        player_id: "".to_string(),
        position: readings([0, 0, 0]),
        rotation: readings([0, 0, 0]),
        turret_rotation: readings([0, 0, 0]),
    };
    let result = validator.validate(&moved);
    assert_eq!(result.errors, vec!["Player ID cannot be empty".to_string()]);
    let adrift = ServerMessage::PlayerMoved {
        player_id: "p".to_string(),
        position: [Reading::Finite(2_000_000), Reading::NotANumber, Reading::Finite(0)],
        rotation: readings([0, 0, 0]),
        turret_rotation: [Reading::Finite(0), Reading::Finite(0), Reading::Infinite],
    };
    let result = validator.validate(&adrift);
    assert!(!result.valid);
    assert_eq!(
        result.errors,
        vec![
            "Player position[1] is not finite: NaN".to_string(),
            "Player turret rotation[2] is not finite: inf".to_string()
        ]
    );
    let hit = ServerMessage::EnemyHit { enemy_id: 1, bullet_id: 2, damage: 150, new_health: 0 };
    let result = validator.validate(&hit);
    assert_eq!(result.errors, vec!["Enemy damage too high: 150".to_string()]);
    let graze = ServerMessage::EnemyHit { enemy_id: 1, bullet_id: 2, damage: 0, new_health: 9 };
    let result = validator.validate(&graze);
    assert!(result.valid);
    assert_eq!(result.warnings, vec!["Enemy hit with 0 damage".to_string()]);
    assert!(validator.validate(&ServerMessage::Pong).valid);
    assert!(validator.validate(&ServerMessage::PlayerLeft { player_id: "p".to_string() }).valid);
    let config = ValidationConfig::default();
    assert!(config.enable_client_validation && config.enable_server_validation);
    assert!(!config.strict_mode);
    assert!(ClientMessage::FireCommand.is_binary());
    assert!(!ClientMessage::Ping.is_binary());
}
