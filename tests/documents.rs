use spec_agent::protocol::encode;
use spec_agent::response::{MessageContent, MessageFormatter, ResponseParser};
use spec_agent::spec_docs::{
    DesignManager, EarsPattern, EarsValidation, PropertyType, RequirementsManager, TaskStatus,
    TasksManager,
};

#[test]
fn ears_compliance_is_case_sensitive() {
    assert!(RequirementsManager::validate_ears_compliance("THE System SHALL respond"));
    assert!(RequirementsManager::validate_ears_compliance("IF x"));
    assert!(!RequirementsManager::validate_ears_compliance("the system shall respond"));
}

#[test]
fn ears_patterns() {
    assert_eq!(
        RequirementsManager::validate_ears_pattern("WHEN a user logs in THEN the System SHALL greet"),
        EarsValidation::Valid(EarsPattern::EventDriven)
    );
    assert_eq!(
        RequirementsManager::validate_ears_pattern("while idle the system shall sleep"),
        EarsValidation::Valid(EarsPattern::StateDriven)
    );
    assert_eq!(
        RequirementsManager::validate_ears_pattern("The system shall log"),
        EarsValidation::Valid(EarsPattern::Ubiquitous)
    );
    assert_eq!(
        RequirementsManager::validate_ears_pattern("WHERE enabled, WHILE busy, WHEN asked THE system SHALL act"),
        EarsValidation::Valid(EarsPattern::Complex)
    );
    assert_eq!(
        RequirementsManager::validate_ears_pattern("The system must log"),
        EarsValidation::Invalid("Missing SHALL keyword".to_string())
    );
    assert_eq!(
        RequirementsManager::validate_ears_pattern("A system shall log"),
        EarsValidation::Invalid("Missing THE keyword".to_string())
    );
    assert_eq!(
        RequirementsManager::classify_upper("IF BROKEN THEN THE SYSTEM SHALL STOP"),
        EarsValidation::Valid(EarsPattern::UnwantedEvent)
    );
}

#[test]
fn requirements_template_names_feature() {
    let doc = RequirementsManager::create_requirements("login");
    assert!(doc.starts_with("# Requirements Document\n\n## Introduction\n\n"));
    assert!(doc.contains("This document specifies the requirements for login.\n"));
    assert!(doc.contains("### Requirement 1"));
    assert!(doc.ends_with("3. IF [unwanted event] THEN the System SHALL [response]\n"));
}

#[test]
fn tasks_template_and_status() {
    let plan = TasksManager::generate_tasks_template("any");
    assert!(plan.starts_with("# Implementation Plan\n\n- [ ] 1. Set up project structure\n"));
    assert!(plan.ends_with("  - Ensure all tests pass, ask the user if questions arise.\n"));
    assert_eq!(TasksManager::parse_task_status("- [x] 1. Done"), TaskStatus::Completed);
    assert_eq!(TasksManager::parse_task_status("  - [ ] 2. Todo"), TaskStatus::NotStarted);
    assert_eq!(TasksManager::parse_task_status("plain text"), TaskStatus::Unknown);
}

#[test]
fn command_extraction() {
    let parser = ResponseParser::new();
    let answer = "Let me look.\n```bash\nls -la\n\n```\nthen\n```python\nprint(1)\n```\n  ```sh  \n  \n```\n```shell\ncd /tmp\npwd\n```";
    assert!(parser.contains_commands(answer));
    assert!(!parser.contains_commands("no code here"));
    assert_eq!(parser.extract_commands(answer), vec!["ls -la".to_string(), "cd /tmp\npwd".to_string()]);
    assert!(parser.extract_commands("```bash\nunclosed").is_empty());
}

#[test]
fn base64_encoding() {
    assert_eq!(encode(""), "");
    assert_eq!(encode("f"), "Zg==");
    assert_eq!(encode("fo"), "Zm8=");
    assert_eq!(encode("foo"), "Zm9v");
    assert_eq!(encode("user:pass"), "dXNlcjpwYXNz");
    assert_eq!(encode("é"), "w6k=");
}

#[test]
fn test_requirements_document_creation() {
    let content = RequirementsManager::create_requirements("test-feature");

    assert!(content.contains("# Requirements Document"));
    assert!(content.contains("test-feature"));
    assert!(content.contains("## Introduction"));
    assert!(content.contains("## Glossary"));
    assert!(content.contains("## Requirements"));
}

#[test]
fn test_ears_compliance_validation() {
    assert!(RequirementsManager::validate_ears_compliance("WHEN user clicks THEN THE system SHALL respond"));
    assert!(RequirementsManager::validate_ears_compliance("WHILE condition holds THE system SHALL maintain state"));
    assert!(RequirementsManager::validate_ears_compliance("IF error occurs THEN THE system SHALL handle gracefully"));
    assert!(RequirementsManager::validate_ears_compliance("WHERE feature enabled THE system SHALL provide functionality"));
    assert!(RequirementsManager::validate_ears_compliance("THE system SHALL always validate input"));

    assert!(!RequirementsManager::validate_ears_compliance("The system should do something"));
    assert!(!RequirementsManager::validate_ears_compliance("User wants feature"));
}

#[test]
fn test_tasks_template_generation() {
    let content = TasksManager::generate_tasks_template("test-feature");

    assert!(content.contains("# Implementation Plan"));
    assert!(content.contains("- [ ] 1. Set up project structure"));
    assert!(content.contains("- [ ]* 1.1 Write property test"));
    assert!(content.contains("- [ ] 2. Implement core functionality"));
    assert!(content.contains("- [ ] 3. Checkpoint"));
}

#[test]
fn test_task_status_parsing() {
    assert_eq!(TasksManager::parse_task_status("- [ ] Task not started"), TaskStatus::NotStarted);
    assert_eq!(TasksManager::parse_task_status("- [x] Task completed"), TaskStatus::Completed);
    assert_eq!(TasksManager::parse_task_status("Some other text"), TaskStatus::Unknown);
}

#[test]
fn test_acceptance_criteria_extraction() {
    let requirements_content = r#"
# Requirements Document

## Requirements

### Requirement 1

**User Story:** As a user, I want to login, so that I can access the system.

#### Acceptance Criteria

1. WHEN user enters valid credentials THEN the system SHALL authenticate the user
2. WHEN user enters invalid credentials THEN the system SHALL reject the login
3. WHILE user is authenticated THE system SHALL maintain session state

### Requirement 2

**User Story:** As an admin, I want to manage users, so that I can control access.

#### Acceptance Criteria

1. WHEN admin creates user THEN the system SHALL store user information
"#;

    let criteria = RequirementsManager::extract_acceptance_criteria(requirements_content);

    assert_eq!(criteria.len(), 4);
    assert_eq!(criteria[0].id, "1.1");
    assert_eq!(criteria[1].id, "1.2");
    assert_eq!(criteria[2].id, "1.3");
    assert_eq!(criteria[3].id, "2.1");

    assert!(matches!(criteria[0].ears_pattern, EarsValidation::Valid(EarsPattern::EventDriven)));
    assert!(matches!(criteria[2].ears_pattern, EarsValidation::Valid(EarsPattern::StateDriven)));
}

#[test]
fn document_validation_reports_sections_and_criteria() {
    let doc = "## Introduction\n\n### Requirement 7\n1. a system SHALL work\n2. nothing here\n";
    let v = RequirementsManager::validate_document(doc);
    assert!(!v.is_valid);
    assert_eq!(
        v.errors,
        vec![
            "Missing Requirements section".to_string(),
            "Criterion 7.1: Missing THE keyword".to_string()
        ]
    );
    assert_eq!(v.warnings, vec!["Missing Glossary section (recommended)".to_string()]);
    let criteria = RequirementsManager::extract_acceptance_criteria(doc);
    assert_eq!(criteria[0].requirement_id, "7");
    assert_eq!(criteria[0].text, "1. a system SHALL work");
    let good = RequirementsManager::create_requirements("x");
    let v = RequirementsManager::validate_document(&good);
    assert!(v.is_valid);
    assert!(v.errors.is_empty() && v.warnings.is_empty());
}

#[test]
fn task_plan_parsing() {
    let plan = "# Plan\n\n- [ ] 1. Set up project\n  - detail\n- [x] 2. Build core. Carefully\n- [ ]* 2.1 Write property test\n- [ ] no id here\n   - [x] 3.  Ship  \n";
    let tasks = TasksManager::parse_tasks_from_content(plan);
    assert_eq!(tasks.len(), 3);
    assert_eq!((tasks[0].id.as_str(), tasks[0].description.as_str(), tasks[0].completed), ("1", "Set up project", false));
    assert_eq!((tasks[1].id.as_str(), tasks[1].description.as_str(), tasks[1].completed), ("2", "Build core. Carefully", true));
    assert_eq!((tasks[2].id.as_str(), tasks[2].description.as_str(), tasks[2].completed), ("3", "Ship", true));
    assert!(tasks.iter().all(|t| t.dependencies.is_empty() && t.requirements_refs.is_empty()));
}

#[test]
fn task_status_update() {
    let plan = "# Plan\n- [ ] 1. Set up\n  - [ ] 2. Build\n- [x] 3. Ship";
    let done = TasksManager::update_task_status(plan, "2", TaskStatus::Completed);
    assert_eq!(done, "# Plan\n- [ ] 1. Set up\n  - [x] 2. Build\n- [x] 3. Ship");
    let reopened = TasksManager::update_task_status(plan, "3", TaskStatus::InProgress);
    assert_eq!(reopened, "# Plan\n- [ ] 1. Set up\n  - [ ] 2. Build\n- [ ] 3. Ship");
    assert_eq!(TasksManager::update_task_status(plan, "9", TaskStatus::Completed), plan);
    let wide = "\u{3000}\t- [ ] 4. Wide";
    assert_eq!(TasksManager::update_task_status(wide, "4", TaskStatus::Completed), "    - [x] 4. Wide");
}

#[test]
fn test_response_parser() {
    let parser = ResponseParser::new();

    let content = parser.parse_response("Simple text message");
    assert_eq!(content.len(), 1);
    if let MessageContent::Text(text) = &content[0] {
        assert_eq!(text, "Simple text message");
    }

    let response_with_command = "Here's a command:\n```bash\nls -la\n```\nThat should work.";
    assert!(parser.contains_commands(response_with_command));

    let commands = parser.extract_commands(response_with_command);
    assert_eq!(commands.len(), 1);
    assert_eq!(commands[0].trim(), "ls -la");
}

#[test]
fn response_pieces() {
    let parser = ResponseParser::new();
    let answer = "Intro line\nReading file: src/main.rs\nmore\n```sh\necho hi\n```\n  \n";
    let texts: Vec<String> = parser
        .parse_response(answer)
        .into_iter()
        .map(|c| match c {
            MessageContent::Text(t) => t,
            other => panic!("unexpected piece {:?}", other),
        })
        .collect();
    assert_eq!(texts, vec!["Intro line", "Reading file: src/main.rs", "more", "Command:\necho hi"]);
    let blank = parser.parse_response("   ");
    assert!(matches!(&blank[0], MessageContent::Text(t) if t == "   "));
}

#[test]
fn message_formatter_defaults() {
    let formatter = MessageFormatter::new();
    assert_eq!(formatter.max_line_length, 80);
    assert_eq!(formatter.timestamp_format, "%H:%M:%S");
    assert!(matches!(formatter.format_user_message("hi"), MessageContent::Text(t) if t == "hi"));
}

#[test]
fn test_design_template_generation() {
    let content = DesignManager::generate_design_template("test-feature");

    assert!(content.contains("# Design Document: test-feature"));
    assert!(content.contains("## Overview"));
    assert!(content.contains("## Architecture"));
    assert!(content.contains("## Components and Interfaces"));
    assert!(content.contains("## Data Models"));
    assert!(content.contains("## Correctness Properties"));
    assert!(content.contains("## Error Handling"));
    assert!(content.contains("## Testing Strategy"));
}

#[test]
fn test_design_manager_creation() {
    let content = DesignManager::generate_design_template("test");
    assert!(content.contains("Design Document"));
}

#[test]
fn test_requirements_manager_creation() {
    let content = RequirementsManager::create_requirements("test");
    assert!(content.contains("Requirements Document"));
}

#[test]
fn test_tasks_manager_creation() {
    let content = TasksManager::generate_tasks_template("test");
    assert!(content.contains("Implementation Plan"));
}

#[test]
fn design_property_checks() {
    assert!(DesignManager::validate_property_format("*For any* x\n**Validates: Requirements 1.1**"));
    assert!(!DesignManager::validate_property_format("*For any* x"));
    assert_eq!(DesignManager::determine_property_type("Round TRIP of encode"), PropertyType::RoundTrip);
    assert_eq!(DesignManager::determine_property_type("MUST Preserve order"), PropertyType::Invariant);
    assert_eq!(DesignManager::determine_property_type("on Error report"), PropertyType::ErrorCondition);
    assert_eq!(DesignManager::determine_property_type("order independent sum"), PropertyType::Confluence);
    assert_eq!(DesignManager::determine_property_type("plain"), PropertyType::Metamorphic);
}

#[test]
fn design_properties_and_validation() {
    let template = DesignManager::generate_design_template("f");
    let props = DesignManager::extract_correctness_properties(&template);
    assert_eq!(props.len(), 1);
    assert_eq!(props[0].id, "property_1");
    assert_eq!(props[0].name, "[Property description]");
    assert_eq!(props[0].description, "*For any* [input domain], [expected behavior]");
    assert_eq!(props[0].requirements_refs, vec!["X.Y".to_string()]);
    assert_eq!(props[0].property_type, PropertyType::Metamorphic);
    let v = DesignManager::validate_document(&template);
    assert!(v.is_valid);
    assert!(v.warnings.is_empty());

    let doc = "## Overview\n## Correctness Properties\nProperty 1: Round trip\n**Validates: Requirements 1.1, 2.3 **\nProperty Two : Order\n## Error Handling\nProperty 9: ignored\n";
    let props = DesignManager::extract_correctness_properties(doc);
    assert_eq!(props.len(), 2);
    assert_eq!(props[0].requirements_refs, vec!["1.1".to_string(), "2.3".to_string()]);
    assert_eq!(props[1].id, "property_two");
    assert_eq!(props[1].name, "Order");
    let v = DesignManager::validate_document(doc);
    assert!(!v.is_valid);
    assert_eq!(
        v.errors,
        vec![
            "Missing required section: ## Architecture".to_string(),
            "Missing required section: ## Components and Interfaces".to_string(),
            "Missing required section: ## Data Models".to_string(),
            "Missing required section: ## Testing Strategy".to_string(),
            "Property 'Order' missing requirements references".to_string(),
        ]
    );
    assert_eq!(
        v.warnings,
        vec![
            "Property 'Round trip' missing description".to_string(),
            "Property 'Order' missing description".to_string(),
        ]
    );
    let empty = DesignManager::validate_document("");
    assert_eq!(empty.warnings, vec!["No correctness properties found".to_string()]);
    assert_eq!(empty.errors.len(), 7);
}

#[test]
fn plan_from_design() {
    let design = "## Overview\n- intro\n## Data Models\n- User record\n- Session\n## Correctness Properties\nProperty 1: Round trip\n*For any* x\n**Validates: Requirements TBD**\nProperty 2: Other\n**Validates: Requirements 1.1**\n## Error Handling\n";
    let plan = TasksManager::generate_tasks_from_design("f", design);
    let expected = "# Implementation Plan\n\n- [ ] 1. Set up project structure and dependencies\n  - Create directory structure and build configuration\n  - Set up testing framework and dependencies\n  - Configure development environment\n  - _Requirements: 1.1_\n\n\
- [ ] 2. Implement data models\n  - User record\n  - Session\n  - _Requirements: TBD_\n\n\
- [ ]* 2.1 Write property test for round trip\n  - **Property 1: Round trip**\n  - **Validates: Requirements TBD**\n\n\
- [ ] 3. Checkpoint - Ensure all tests pass\n  - Ensure all tests pass, ask the user if questions arise.\n\n\
- [ ] 4. Integration and finalization\n  - Integrate all components\n  - Perform end-to-end testing\n  - Add documentation and examples\n  - _Requirements: All_\n\n\
- [ ] 5. Final Checkpoint - Ensure all tests pass\n  - Ensure all tests pass, ask the user if questions arise.\n";
    assert_eq!(plan, expected);
    let empty = TasksManager::generate_tasks_from_design("f", "");
    assert!(empty.contains("- [ ] 2. Checkpoint - Ensure all tests pass"));
    assert!(empty.ends_with("- [ ] 4. Final Checkpoint - Ensure all tests pass\n  - Ensure all tests pass, ask the user if questions arise.\n"));
}

#[test]
fn design_from_requirements() {
    let requirements = "## Requirements\n### Requirement 1\n1. WHEN user enters valid credentials THEN the system SHALL authenticate the user\n2. IF login fails THEN THE system SHALL report the error\n";
    let criteria = RequirementsManager::extract_acceptance_criteria(requirements);
    let props = DesignManager::generate_correctness_properties(&criteria);
    assert_eq!(props.len(), 2);
    assert_eq!(props[0].id, "property_1_1");
    assert_eq!(props[0].name, "user enters valid");
    assert_eq!(
        props[0].description,
        "Property derived from: 1. when user enters valid credentials then the system should authenticate the user"
    );
    assert_eq!(props[0].property_type, PropertyType::Metamorphic);
    assert_eq!(props[0].requirements_refs, vec!["1.1".to_string()]);
    assert_eq!(props[1].name, "login fails report");
    assert_eq!(props[1].property_type, PropertyType::ErrorCondition);

    let design = DesignManager::generate_design_from_requirements("login", requirements);
    assert!(design.starts_with("# Design Document: login\n\n## Overview\n\nThis design document outlines the architecture and implementation approach for login.\n"));
    assert!(design.contains("Property 1: user enters valid\n*For any* Property derived from: 1. when user enters valid credentials then the system should authenticate the user\n**Validates: Requirements 1.1**\n\n"));
    assert!(design.contains("Property 2: login fails report\n"));
    assert!(design.ends_with("- Each property test tagged with: **Feature: {}, Property N: [property_text]**\n"));
    let v = DesignManager::validate_document(&design);
    assert!(v.is_valid);

    let nameless = one_criterion("9.9", "THE THE");
    let props = DesignManager::generate_correctness_properties(&nameless);
    assert_eq!(props[0].name, "Generated property");
}

fn one_criterion(id: &str, text: &str) -> Vec<spec_agent::spec_docs::AcceptanceCriterion> {
    vec![spec_agent::spec_docs::AcceptanceCriterion {
        id: id.to_string(),
        requirement_id: "9".to_string(),
        text: text.to_string(),
        ears_pattern: EarsValidation::Invalid("x".to_string()),
    }]
}
