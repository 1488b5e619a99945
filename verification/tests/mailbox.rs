use bmad::clock::Timestamp;
use bmad::communication::CommunicationManager;
use bmad::frame::{head_kind, read_frame, read_heading, skip_lines};
use bmad::mailbox::Mailbox;
use bmad::types::{AgentMessage, AgentType, BMadError, MessageStatus, MessageType};

const NOW: i64 = 1_700_000_000;

fn manager() -> CommunicationManager {
    CommunicationManager::new("/work/project")
}

fn all_agents() -> Vec<AgentType> {
    vec![
        AgentType::Analyst,
        AgentType::Architect,
        AgentType::ProductManager,
        AgentType::ProductOwner,
        AgentType::ScrumMaster,
        AgentType::Developer,
        AgentType::QualityAssurance,
        AgentType::UXExpert,
        AgentType::BMadOrchestrator,
    ]
}

fn message(id: u128, at: i64, from: AgentType, to: Option<AgentType>, kind: MessageType, body: &str) -> AgentMessage {
    manager().create_message_at(id, Timestamp::new(at, 0), from, to, body.to_string(), kind, Vec::new())
}

fn mailbox_of(messages: &[AgentMessage]) -> Mailbox {
    let mut mailbox = Mailbox::new();
    for m in messages {
        manager().save_message(&mut mailbox, m);
    }
    mailbox
}

#[test]
fn mailbox_manager_keeps_its_project_path() {
    assert_eq!(manager().project_path(), "/work/project");
}

#[test]
fn documents_are_named_after_sender_and_recipient() {
    let m = manager();
    assert_eq!(m.slot_name(AgentType::Developer, Some(AgentType::QualityAssurance)), "dev-to-qa.md");
    assert_eq!(m.slot_name(AgentType::ProductManager, None), "pm-status.md");
    assert_eq!(m.agent_to_filename(&AgentType::BMadOrchestrator), "orchestrator");
    assert_eq!(m.agent_display_name(&AgentType::QualityAssurance), "QA");
    assert_eq!(m.agent_display_name(&AgentType::UXExpert), "UX Expert");
}

#[test]
fn every_address_is_read_back_from_its_document_name() {
    let m = manager();
    let mut names = Vec::new();
    for from in all_agents() {
        let mut recipients: Vec<Option<AgentType>> = all_agents().into_iter().map(Some).collect();
        recipients.push(None);
        for to in recipients {
            let name = m.slot_name(from, to);
            assert!(m.is_message_file(&name));
            let back = m.parse_agents_from_filename(m.file_stem(&name)).unwrap();
            assert_eq!(back, (from, to));
            assert!(!names.contains(&name));
            names.push(name);
        }
    }
    assert_eq!(names.len(), 90);
}

#[test]
fn agents_are_known_by_several_names() {
    let m = manager();
    for name in ["pm", "PM", "product-manager", "Product_Manager"] {
        assert_eq!(m.parse_agent_name(name).unwrap(), AgentType::ProductManager);
    }
    assert_eq!(m.parse_agent_name("po").unwrap(), AgentType::ProductOwner);
    assert_eq!(m.parse_agent_name("product_owner").unwrap(), AgentType::ProductOwner);
    assert_eq!(m.parse_agent_name("scrum-master").unwrap(), AgentType::ScrumMaster);
    assert_eq!(m.parse_agent_name("Developer").unwrap(), AgentType::Developer);
    assert_eq!(m.parse_agent_name("quality-assurance").unwrap(), AgentType::QualityAssurance);
    assert_eq!(m.parse_agent_name("ux_expert").unwrap(), AgentType::UXExpert);
    assert_eq!(m.parse_agent_name("bmad-orchestrator").unwrap(), AgentType::BMadOrchestrator);
    assert_eq!(m.parse_agent_name("ANALYST").unwrap(), AgentType::Analyst);
    assert_eq!(m.parse_agent_name("architect").unwrap(), AgentType::Architect);
    match m.parse_agent_name("Bob") {
        Err(e @ BMadError::Communication(_)) => {
            assert_eq!(e.message(), "Communication error: Unknown agent name: Bob");
        }
        _ => panic!("expected a communication error"),
    }
}

#[test]
fn addresses_are_read_from_stems() {
    let m = manager();
    assert_eq!(
        m.parse_agents_from_filename("product-manager-to-quality_assurance").unwrap(),
        (AgentType::ProductManager, Some(AgentType::QualityAssurance))
    );
    assert_eq!(m.parse_agents_from_filename("dev").unwrap(), (AgentType::Developer, None));
    assert_eq!(m.parse_agents_from_filename("dev-status").unwrap(), (AgentType::Developer, None));
    for (stem, unknown) in [
        ("dev-to-bob", "bob"),
        ("bob-to-dev", "bob"),
        ("a-to-b-to-c", "a-to-b-to-c"),
        ("dev-to-qa-status", "qa-status"),
        ("bob-status", "bob-status"),
        ("", ""),
    ] {
        match m.parse_agents_from_filename(stem) {
            Err(BMadError::Communication(why)) => assert_eq!(why, format!("Unknown agent name: {}", unknown)),
            _ => panic!("expected a communication error for {}", stem),
        }
    }
}

#[test]
fn stems_and_extensions_of_file_names() {
    let m = manager();
    assert_eq!(m.file_stem("dev-to-qa.md"), "dev-to-qa");
    assert_eq!(m.file_stem("notes"), "notes");
    assert_eq!(m.file_stem(".md"), ".md");
    assert_eq!(m.file_stem("a.b.md"), "a.b");
    assert!(m.is_message_file("a.md"));
    assert!(!m.is_message_file(".md"));
    assert!(!m.is_message_file("a.MD"));
    assert!(!m.is_message_file("a.md.bak"));
    assert!(!m.is_message_file("md"));
}

#[test]
fn a_document_is_written_line_by_line() {
    let mut m = message(0x550e8400_e29b_41d4_a716_446655440000, NOW, AgentType::Developer, Some(AgentType::QualityAssurance), MessageType::Handoff, "Please test.");
    m.files_referenced = vec!["src/login.rs".to_string(), "README.md".to_string()];
    let text = manager().format_message_content(&m);
    let expected = "# Developer \u{2192} QA Communication\n\n## Handoff \u{23F3}\n\n**Last Updated:** 2023-11-14 22:13 UTC  \n**Status:** Pending \u{23F3}  \n**Message ID:** 550e8400-e29b-41d4-a716-446655440000\n\nPlease test.\n\n### Referenced Files\n- `src/login.rs`\n- `README.md`\n\n\n---\n*Generated by BMAD Desktop*\n";
    assert_eq!(text, expected);
}

#[test]
fn a_broadcast_is_addressed_to_the_team() {
    let mut m = message(1, NOW, AgentType::ScrumMaster, None, MessageType::Update, "Standup at ten");
    m.status = MessageStatus::Archived;
    let text = manager().format_message_content(&m);
    assert!(text.starts_with("# Scrum Master \u{2192} Team Communication\n\n## Status Update \u{1F4C1}\n\n"));
    assert!(text.contains("**Status:** Archived \u{1F4C1}  \n"));
    assert!(text.ends_with("Standup at ten\n\n---\n*Generated by BMAD Desktop*\n"));
}

fn all_kinds() -> Vec<MessageType> {
    vec![
        MessageType::Handoff,
        MessageType::Question,
        MessageType::Update,
        MessageType::Completion,
        MessageType::BlockerReport,
        MessageType::ContextShare,
        MessageType::Assignment,
    ]
}

#[test]
fn a_saved_message_is_read_back() {
    let c = manager();
    for from in all_agents() {
        for to in [None, Some(AgentType::QualityAssurance), Some(AgentType::BMadOrchestrator)] {
            for status in [MessageStatus::Pending, MessageStatus::Read, MessageStatus::Processed, MessageStatus::Archived] {
                let created = c.create_message(from, to, "Take over the login story".to_string(), MessageType::Handoff, vec!["src/login.rs".to_string()]);
                assert_eq!(created.status, MessageStatus::Pending);
                let mut m = created;
                m.status = status;
                let mut mailbox = Mailbox::new();
                let name = c.save_message(&mut mailbox, &m);
                assert_eq!(mailbox.len(), 1);
                let text = mailbox.get(&name).unwrap().to_string();
                let back = c.parse_message_file_at(&name, &text, 0, Timestamp::new(0, 0)).unwrap();
                assert_eq!(back.from_agent, m.from_agent);
                assert_eq!(back.to_agent, m.to_agent);
                assert_eq!(back.message_type, MessageType::Handoff);
                assert_eq!(back.status, m.status);
                assert_eq!(back.id, m.id);
                assert_eq!(back.content, "Take over the login story");
                assert_eq!(back.files_referenced, vec!["src/login.rs".to_string()]);
                assert_eq!(back.timestamp.nanos, 0);
                assert_eq!(back.timestamp.secs, m.timestamp.secs - m.timestamp.secs % 60);
            }
        }
    }
}

#[test]
fn the_text_and_the_files_of_a_message_are_cut_out_of_its_document() {
    let c = manager();
    let bodies = [
        "",
        "x",
        "Please test.\n",
        "first line\r\nsecond line\n\n\nlast line",
        "a handoff? Status: \u{2705} blocked\n## Question\n**Status:** Read\n**Message ID:** 00000000-0000-0000-0000-000000000009",
        "see\n\n### Referenced Files\n- `not/mine.rs`\nand more",
        "ends like a document\n\n---\n*Generated by BMAD Desktop*\n",
        "- `a/b.rs`\n",
    ];
    let lists: [Vec<String>; 3] = [
        Vec::new(),
        vec!["src/login.rs".to_string()],
        vec!["README".to_string(), "".to_string(), "docs/the plan.md".to_string(), "- 'quoted'".to_string(), "tick`s and ``more`".to_string(), "`".to_string()],
    ];
    for body in bodies {
        for files in &lists {
            for kind in all_kinds() {
                let mut m = message(0x550e8400_e29b_41d4_a716_446655440000, NOW, AgentType::Developer, None, kind, body);
                m.files_referenced = files.clone();
                let text = c.format_message_content(&m);
                let back = c.parse_message_file_at("dev-status.md", &text, 0, Timestamp::new(0, 0)).unwrap();
                assert_eq!(back.content, body);
                assert_eq!(&back.files_referenced, files);
                assert_eq!(back.message_type, kind);
                assert_eq!(back.id, m.id);
                assert_eq!(back.status, MessageStatus::Pending);
                assert_eq!(c.format_message_content(&back), text);
            }
        }
    }
}

#[test]
fn a_text_that_ends_with_a_list_of_files_keeps_it_only_beside_real_files() {
    let c = manager();
    let body = "see\n\n### Referenced Files\n- `not/mine.rs`\n";
    let mut m = message(1, NOW, AgentType::Developer, None, MessageType::Update, body);
    m.files_referenced = vec!["src/real.rs".to_string()];
    let back = c.parse_message_file_at("dev-status.md", &c.format_message_content(&m), 0, Timestamp::new(0, 0)).unwrap();
    assert_eq!(back.content, body);
    assert_eq!(back.files_referenced, vec!["src/real.rs".to_string()]);
    m.files_referenced = Vec::new();
    let text = c.format_message_content(&m);
    let back = c.parse_message_file_at("dev-status.md", &text, 0, Timestamp::new(0, 0)).unwrap();
    assert_eq!(back.content, "see");
    assert_eq!(back.files_referenced, vec!["not/mine.rs".to_string()]);
    assert_eq!(c.format_message_content(&back), text);
}

#[test]
fn a_file_name_of_two_lines_is_not_read_back() {
    let c = manager();
    let mut m = message(1, NOW, AgentType::Developer, None, MessageType::Update, "see");
    m.files_referenced = vec!["a`\n- `b".to_string()];
    let text = c.format_message_content(&m);
    let back = c.parse_message_file_at("dev-status.md", &text, 0, Timestamp::new(0, 0)).unwrap();
    assert_eq!(back.content, "see");
    assert_eq!(back.files_referenced, vec!["a".to_string(), "b".to_string()]);
    assert_eq!(c.format_message_content(&back), text);
    m.files_referenced = vec!["a\nb".to_string()];
    let text = c.format_message_content(&m);
    let back = c.parse_message_file_at("dev-status.md", &text, 0, Timestamp::new(0, 0)).unwrap();
    assert_eq!(back.content, "see\n\n### Referenced Files\n- `a\nb`\n");
    assert!(back.files_referenced.is_empty());
    assert_eq!(back.message_type, MessageType::Update);
}

#[test]
fn a_text_without_the_head_of_a_document_is_kept_whole() {
    let c = manager();
    let text = "## Handoff\n\nsee `src/a.rs`\n- `src/b.rs`\n\n---\n*Generated by BMAD Desktop*\n";
    let read = c.parse_message_file_at("dev-to-qa.md", text, 3, Timestamp::new(5, 0)).unwrap();
    assert_eq!(read.content, text);
    assert_eq!(read.message_type, MessageType::Handoff);
    assert_eq!(read.files_referenced, vec!["src/b.rs".to_string()]);
    assert_eq!((read.id, read.timestamp, read.status), (3, Timestamp::new(5, 0), MessageStatus::Pending));
    let headless = "# Developer \u{2192} QA Communication\n## Question \u{23F3}\n\n**Last Updated:** 2023-11-14 22:13 UTC  \n**Status:** Read \u{1F440}  \n**Message ID:** 00000000-0000-0000-0000-000000000004\n\nbody\n";
    let read = c.parse_message_file_at("dev-to-qa.md", headless, 3, Timestamp::new(5, 0)).unwrap();
    assert_eq!(read.content, headless);
    assert_eq!(read.message_type, MessageType::Question);
    assert_eq!((read.id, read.status), (4, MessageStatus::Read));
}

#[test]
fn a_document_that_was_edited_by_hand_is_cut_along_what_is_left_of_its_frame() {
    let c = manager();
    let head = "# Developer \u{2192} QA Communication\r\n\r\n## Assignment\r\n\r\n**Last Updated:** soon\r\n**Status:** processed\r\n**Message ID:** none\r\n\r\n";
    let open = format!("{}do this? handoff\n- `x/y`\n", head);
    let read = c.parse_message_file_at("dev-to-qa.md", &open, 3, Timestamp::new(5, 0)).unwrap();
    assert_eq!(read.content, "do this? handoff\n- `x/y`\n");
    assert_eq!(read.message_type, MessageType::Assignment);
    assert!(read.files_referenced.is_empty());
    assert_eq!((read.id, read.timestamp, read.status), (3, Timestamp::new(5, 0), MessageStatus::Processed));
    let listed = format!("{}do this\n\n### Referenced Files\n- `x/y`\n- `z`\n", head);
    let read = c.parse_message_file_at("dev-to-qa.md", &listed, 3, Timestamp::new(5, 0)).unwrap();
    assert_eq!(read.content, "do this");
    assert_eq!(read.files_referenced, vec!["x/y".to_string(), "z".to_string()]);
    let broken = format!("{}do this\n\n### Referenced Files\n- `x/y`\n- `z\n\n\n---\n*Generated by BMAD Desktop*\n", head);
    let read = c.parse_message_file_at("dev-to-qa.md", &broken, 3, Timestamp::new(5, 0)).unwrap();
    assert_eq!(read.content, "do this\n\n### Referenced Files\n- `x/y`\n- `z\n");
    assert!(read.files_referenced.is_empty());
    let bare = head.to_string();
    let read = c.parse_message_file_at("dev-to-qa.md", &bare, 3, Timestamp::new(5, 0)).unwrap();
    assert_eq!(read.content, "");
    let short = head.trim_end().to_string();
    let read = c.parse_message_file_at("dev-to-qa.md", &short, 3, Timestamp::new(5, 0)).unwrap();
    assert_eq!(read.content, short);
    assert_eq!(read.message_type, MessageType::Update);
}

#[test]
fn the_frame_of_a_document_is_read_step_by_step() {
    let chars = |s: &str| s.chars().collect::<Vec<char>>();
    assert_eq!(read_heading(&chars("## Handoff \u{23F3}")), Some(MessageType::Handoff));
    assert_eq!(read_heading(&chars("## Question")), Some(MessageType::Question));
    assert_eq!(read_heading(&chars("## Status Update x")), Some(MessageType::Update));
    assert_eq!(read_heading(&chars("## Task Complete")), Some(MessageType::Completion));
    assert_eq!(read_heading(&chars("## Blocker Report")), Some(MessageType::BlockerReport));
    assert_eq!(read_heading(&chars("## Context Share")), Some(MessageType::ContextShare));
    assert_eq!(read_heading(&chars("## Assignment")), Some(MessageType::Assignment));
    assert_eq!(read_heading(&chars("## Update")), None);
    assert_eq!(read_heading(&chars(" ## Handoff")), None);
    assert_eq!(read_heading(&chars("## Handof")), None);
    assert_eq!(read_heading(&chars("")), None);
    assert_eq!(skip_lines(&chars("a\nbc\n\nd"), 0), Some(0));
    assert_eq!(skip_lines(&chars("a\nbc\n\nd"), 1), Some(2));
    assert_eq!(skip_lines(&chars("a\nbc\n\nd"), 2), Some(5));
    assert_eq!(skip_lines(&chars("a\nbc\n\nd"), 3), Some(6));
    assert_eq!(skip_lines(&chars("a\nbc\n\nd"), 4), None);
    assert_eq!(skip_lines(&chars("a\n"), 1), Some(2));
    assert_eq!(skip_lines(&chars(""), 1), None);
    let m = message(1, NOW, AgentType::Developer, None, MessageType::Completion, "done");
    let text = manager().format_message_content(&m);
    assert_eq!(head_kind(&chars(&text)), Some(MessageType::Completion));
    assert_eq!(head_kind(&chars(&text.replacen("# ", "#", 1))), None);
    assert_eq!(head_kind(&chars(&text.replacen("**Status:**", "**State:**", 1))), None);
    assert_eq!(head_kind(&chars("## Handoff")), None);
    let frame = read_frame(&text).unwrap();
    assert_eq!(frame.kind, MessageType::Completion);
    assert_eq!(frame.body, "done");
    assert!(frame.files.is_empty());
    assert!(read_frame("done").is_none());
    assert!(read_frame("").is_none());
}

#[test]
fn the_kind_of_a_message_is_read_from_cues() {
    let c = manager();
    assert_eq!(c.extract_message_type("a handoff to you"), MessageType::Handoff);
    assert_eq!(c.extract_message_type("## Handoff"), MessageType::Handoff);
    assert_eq!(c.extract_message_type("Ready? handoff"), MessageType::Handoff);
    assert_eq!(c.extract_message_type("Ready?"), MessageType::Question);
    assert_eq!(c.extract_message_type("## Question"), MessageType::Question);
    assert_eq!(c.extract_message_type("## Update"), MessageType::Update);
    assert_eq!(c.extract_message_type("Status: fine"), MessageType::Update);
    assert_eq!(c.extract_message_type("## Complete"), MessageType::Completion);
    assert_eq!(c.extract_message_type("done \u{2705}"), MessageType::Completion);
    assert_eq!(c.extract_message_type("## Blocker"), MessageType::BlockerReport);
    assert_eq!(c.extract_message_type("I am blocked"), MessageType::BlockerReport);
    assert_eq!(c.extract_message_type("just so you know"), MessageType::ContextShare);
    assert_eq!(c.extract_message_type(""), MessageType::ContextShare);
}

#[test]
fn the_kind_of_a_written_document_is_read_from_its_heading() {
    let c = manager();
    for kind in all_kinds() {
        for body in ["x", "a handoff", "why?", "Status: blocked \u{2705}", "## Handoff\n## Question"] {
            let m = message(1, NOW, AgentType::Developer, Some(AgentType::Architect), kind, body);
            let text = c.format_message_content(&m);
            let back = c.parse_message_file_at("dev-to-architect.md", &text, 0, Timestamp::new(0, 0)).unwrap();
            assert_eq!(back.message_type, kind);
        }
    }
    let m = message(1, NOW, AgentType::Developer, Some(AgentType::Architect), MessageType::Completion, "x");
    assert_eq!(c.extract_message_type(&c.format_message_content(&m)), MessageType::Update);
}

#[test]
fn referenced_files_are_found_on_lines_with_links_or_items() {
    let c = manager();
    let text = "See [the plan](docs/plan.md) and `docs/plan.md`\n- `src/main.rs`\n- `README`\n- `a.b` and `c/d`\nplain `x/y` text\n- no ticks\n- `open only\n[l](u) `v.w`";
    assert_eq!(
        c.extract_referenced_files(text),
        vec!["docs/plan.md".to_string(), "src/main.rs".to_string(), "a.b".to_string(), "v.w".to_string()]
    );
    assert!(c.extract_referenced_files("").is_empty());
}

#[test]
fn metadata_is_read_from_the_first_lines_that_give_it() {
    let c = manager();
    let text = "**Status:** READ now\n**Status:** archived\n**Timestamp:** 2023-11-14T22:13:20Z\n**Last Updated:** 2020-01-01 00:00 UTC\n**Message ID:**   550e8400-e29b-41d4-a716-446655440000  \n**Message ID:** 00000000-0000-0000-0000-000000000001\n";
    let (id, instant, status) = c.extract_metadata_at(text, 7, Timestamp::new(1, 1));
    assert_eq!(id, 0x550e8400_e29b_41d4_a716_446655440000);
    assert_eq!(instant, Timestamp::new(NOW, 0));
    assert_eq!(status, MessageStatus::Read);
    let (id, instant, status) = c.declared_metadata(text);
    assert_eq!(id, Some(0x550e8400_e29b_41d4_a716_446655440000));
    assert_eq!(instant, Some(Timestamp::new(NOW, 0)));
    assert_eq!(status, Some(MessageStatus::Read));
}

#[test]
fn missing_metadata_is_made_up() {
    let c = manager();
    let text = "**Status:** unknown\n **Status:** read\n**Last Updated:** soon\n**Message ID:** none\nStatus: read";
    assert_eq!(c.extract_metadata_at(text, 7, Timestamp::new(1, 1)), (7, Timestamp::new(1, 1), MessageStatus::Pending));
    assert_eq!(c.declared_metadata(text), (None, None, None));
    let (_, _, status) = c.extract_metadata("");
    assert_eq!(status, MessageStatus::Pending);
    let (_, instant, status) = c.extract_metadata("**Last Updated:** 2023-11-14 22:13 UTC\n**Status:** Processed");
    assert_eq!(instant, Timestamp::new(NOW - 20, 0));
    assert_eq!(status, MessageStatus::Processed);
}

#[test]
fn a_document_with_a_bad_name_is_not_read() {
    let c = manager();
    match c.parse_message_file_at("notes.md", "hello", 1, Timestamp::new(0, 0)) {
        Err(BMadError::Communication(why)) => assert_eq!(why, "Unknown agent name: notes"),
        _ => panic!("expected a communication error"),
    }
    let read = c.parse_message_file("qa-to-dev.md", "Is it done?").unwrap();
    assert_eq!(read.from_agent, AgentType::QualityAssurance);
    assert_eq!(read.to_agent, Some(AgentType::Developer));
    assert_eq!(read.message_type, MessageType::Question);
    assert_eq!(read.status, MessageStatus::Pending);
    assert_eq!(read.content, "Is it done?");
}

#[test]
fn a_second_message_of_the_same_pair_overwrites_the_first() {
    let c = manager();
    let first = message(1, NOW, AgentType::Developer, Some(AgentType::QualityAssurance), MessageType::Handoff, "first text");
    let second = message(2, NOW + 60, AgentType::Developer, Some(AgentType::QualityAssurance), MessageType::Question, "second text");
    let other = message(3, NOW, AgentType::QualityAssurance, Some(AgentType::Developer), MessageType::Update, "other");
    let mut mailbox = Mailbox::new();
    assert_eq!(c.save_message(&mut mailbox, &first), "dev-to-qa.md");
    c.save_message(&mut mailbox, &other);
    assert_eq!(c.save_message(&mut mailbox, &second), "dev-to-qa.md");
    assert_eq!(mailbox.len(), 2);
    let names: Vec<&str> = mailbox.documents().iter().map(|f| f.name.as_str()).collect();
    assert_eq!(names, vec!["dev-to-qa.md", "qa-to-dev.md"]);
    let text = mailbox.get("dev-to-qa.md").unwrap();
    assert_eq!(text, c.format_message_content(&second));
    assert!(text.contains("second text"));
    assert!(!text.contains("first text"));
    assert_eq!(mailbox.find("qa-to-dev.md"), Some(1));
    assert_eq!(mailbox.find("pm-status.md"), None);
    assert!(mailbox.get("pm-status.md").is_none());
    assert_eq!(mailbox.documents()[1].name, "qa-to-dev.md");
}

#[test]
fn messages_are_loaded_in_the_order_of_their_instants() {
    let c = manager();
    let mut mailbox = mailbox_of(&[
        message(1, NOW + 600, AgentType::Developer, Some(AgentType::QualityAssurance), MessageType::Handoff, "late"),
        message(2, NOW, AgentType::QualityAssurance, Some(AgentType::Developer), MessageType::Update, "early"),
        message(3, NOW + 300, AgentType::ProductManager, None, MessageType::Update, "middle"),
        message(4, NOW + 300, AgentType::Architect, Some(AgentType::Developer), MessageType::Update, "middle too"),
    ]);
    mailbox.store("notes.md".to_string(), "not a message".to_string());
    mailbox.store("dev-to-pm.txt".to_string(), "not a document".to_string());
    let ids: Vec<u128> = c.load_all_messages(&mailbox).iter().map(|m| m.id).collect();
    assert_eq!(ids, vec![2, 3, 4, 1]);
    let latest: Vec<u128> = c.get_latest_messages(&mailbox, 3).iter().map(|m| m.id).collect();
    assert_eq!(latest, vec![1, 3, 4]);
    assert_eq!(c.get_latest_messages(&mailbox, 0).len(), 0);
    assert_eq!(c.get_latest_messages(&mailbox, 10).len(), 4);
    let dev: Vec<u128> = c.load_messages_for_agent(&mailbox, &AgentType::Developer).iter().map(|m| m.id).collect();
    assert_eq!(dev, vec![2, 4, 1]);
    let pm: Vec<u128> = c.load_messages_for_agent(&mailbox, &AgentType::ProductManager).iter().map(|m| m.id).collect();
    assert_eq!(pm, vec![3]);
    let thread: Vec<u128> = c
        .get_conversation_thread(&mailbox, &AgentType::QualityAssurance, &AgentType::Developer)
        .iter()
        .map(|m| m.id)
        .collect();
    assert_eq!(thread, vec![2, 1]);
    assert!(c.get_conversation_thread(&mailbox, &AgentType::Analyst, &AgentType::Developer).is_empty());
    assert!(c.load_all_messages(&Mailbox::new()).is_empty());
}

#[test]
fn lists_of_messages_are_ordered_and_filtered() {
    let c = manager();
    let list = || {
        vec![
            message(1, 50, AgentType::Developer, Some(AgentType::QualityAssurance), MessageType::Handoff, "a"),
            message(2, 10, AgentType::QualityAssurance, None, MessageType::Update, "b"),
            message(3, 50, AgentType::Analyst, Some(AgentType::Developer), MessageType::Update, "c"),
            message(4, 30, AgentType::QualityAssurance, Some(AgentType::Developer), MessageType::Update, "d"),
        ]
    };
    let ids = |v: Vec<AgentMessage>| v.iter().map(|m| m.id).collect::<Vec<u128>>();
    assert_eq!(ids(c.sort_messages(list(), false)), vec![2, 4, 1, 3]);
    assert_eq!(ids(c.sort_messages(list(), true)), vec![1, 3, 4, 2]);
    assert_eq!(ids(c.latest_messages(list(), 2)), vec![1, 3]);
    assert_eq!(ids(c.messages_for_agent(list(), &AgentType::QualityAssurance)), vec![1, 2, 4]);
    assert_eq!(ids(c.conversation_thread(list(), &AgentType::Developer, &AgentType::QualityAssurance)), vec![1, 4]);
    let mut counted = list();
    counted[1].status = MessageStatus::Read;
    assert_eq!(c.count_unread(&counted), 3);
}

#[test]
fn unread_messages_are_counted() {
    let c = manager();
    let mut mailbox = mailbox_of(&[
        message(1, NOW, AgentType::Developer, Some(AgentType::QualityAssurance), MessageType::Handoff, "a"),
        message(2, NOW, AgentType::QualityAssurance, Some(AgentType::Developer), MessageType::Update, "b"),
        message(3, NOW, AgentType::ProductManager, None, MessageType::Update, "c"),
    ]);
    mailbox.store("ux-to-dev.md".to_string(), "no status line".to_string());
    mailbox.store("readme.md".to_string(), "**Status:** Pending".to_string());
    assert_eq!(c.get_unread_message_count(&mailbox), 4);
    assert!(c.mark_message_read_at(&mut mailbox, 2, Timestamp::new(NOW, 0)).is_ok());
    assert_eq!(c.get_unread_message_count(&mailbox), 3);
    let read = c.load_all_messages(&mailbox).into_iter().find(|m| m.id == 2).unwrap();
    assert_eq!(read.status, MessageStatus::Read);
    assert_eq!(read.from_agent, AgentType::QualityAssurance);
    assert_eq!(read.content, "b");
    assert_eq!(read.message_type, MessageType::Update);
    assert!(c.mark_message_read(&mut mailbox, 3).is_ok());
    assert_eq!(c.get_unread_message_count(&mailbox), 2);
    assert_eq!(c.get_unread_message_count(&Mailbox::new()), 0);
}

#[test]
fn marking_an_unknown_message_fails_and_changes_nothing() {
    let c = manager();
    let mut mailbox = mailbox_of(&[message(1, NOW, AgentType::Developer, None, MessageType::Update, "a")]);
    let before = mailbox.get("dev-status.md").unwrap().to_string();
    match c.mark_message_read_at(&mut mailbox, 0x10, Timestamp::new(NOW, 0)) {
        Err(BMadError::Communication(why)) => {
            assert_eq!(why, "Message not found: 00000000-0000-0000-0000-000000000010");
        }
        _ => panic!("expected a communication error"),
    }
    assert_eq!(mailbox.get("dev-status.md").unwrap(), before);
    assert!(c.mark_message_read(&mut Mailbox::new(), 1).is_err());
}

#[test]
fn old_messages_are_archived_once() {
    let c = manager();
    let day = 86_400;
    let now = Timestamp::new(NOW, 0);
    let mut mailbox = mailbox_of(&[
        message(1, NOW - 40 * day, AgentType::Developer, Some(AgentType::QualityAssurance), MessageType::Handoff, "old"),
        message(2, NOW - 10 * day, AgentType::QualityAssurance, Some(AgentType::Developer), MessageType::Update, "recent"),
        message(3, NOW - 31 * day, AgentType::ProductManager, None, MessageType::Update, "older"),
    ]);
    let loaded = c.load_all_messages(&mailbox);
    assert_eq!(c.archive_messages(&mut mailbox, loaded, 30, now), 2);
    let status_of = |mailbox: &Mailbox, id: u128| c.load_all_messages(mailbox).into_iter().find(|m| m.id == id).unwrap().status;
    assert_eq!(status_of(&mailbox, 1), MessageStatus::Archived);
    assert_eq!(status_of(&mailbox, 2), MessageStatus::Pending);
    assert_eq!(status_of(&mailbox, 3), MessageStatus::Archived);
    assert_eq!(mailbox.len(), 3);
    let mut archived = message(3, NOW - 31 * day, AgentType::ProductManager, None, MessageType::Update, "older");
    archived.status = MessageStatus::Archived;
    assert_eq!(mailbox.get("pm-status.md").unwrap(), c.format_message_content(&archived));
    let again = c.load_all_messages(&mailbox);
    assert_eq!(c.archive_messages(&mut mailbox, again, 30, now), 0);
    assert_eq!(c.archive_old_messages(&mut mailbox, 1), 1);
    assert_eq!(c.archive_old_messages(&mut mailbox, 1), 0);
    assert_eq!(c.get_unread_message_count(&mailbox), 0);
}

#[test]
fn an_ordered_list_of_messages_stays_as_it_is() {
    let c = manager();
    let list = || {
        vec![
            message(2, 10, AgentType::QualityAssurance, None, MessageType::Update, "b"),
            message(4, 30, AgentType::QualityAssurance, Some(AgentType::Developer), MessageType::Update, "d"),
            message(1, 50, AgentType::Developer, Some(AgentType::QualityAssurance), MessageType::Handoff, "a"),
            message(3, 50, AgentType::Analyst, Some(AgentType::Developer), MessageType::Update, "c"),
        ]
    };
    let ids = |v: Vec<AgentMessage>| v.iter().map(|m| m.id).collect::<Vec<u128>>();
    assert_eq!(ids(c.sort_messages(list(), false)), vec![2, 4, 1, 3]);
    assert_eq!(ids(c.sort_messages(c.sort_messages(list(), true), true)), vec![1, 3, 4, 2]);
    assert!(c.sort_messages(Vec::new(), false).is_empty());
}

#[test]
fn a_message_that_is_marked_twice_is_still_read() {
    let c = manager();
    let mut mailbox = mailbox_of(&[message(5, NOW, AgentType::Analyst, Some(AgentType::Architect), MessageType::Question, "Which database?")]);
    assert!(c.mark_message_read_at(&mut mailbox, 5, Timestamp::new(NOW, 0)).is_ok());
    assert!(c.mark_message_read_at(&mut mailbox, 5, Timestamp::new(NOW, 0)).is_ok());
    assert_eq!(mailbox.len(), 1);
    let read = c.load_all_messages(&mailbox);
    assert_eq!(read.len(), 1);
    assert_eq!(read[0].id, 5);
    assert_eq!(read[0].status, MessageStatus::Read);
    assert_eq!(read[0].message_type, MessageType::Question);
    assert_eq!(read[0].content, "Which database?");
    assert_eq!(c.get_unread_message_count(&mailbox), 0);
    let mut once = mailbox_of(&[message(5, NOW, AgentType::Analyst, Some(AgentType::Architect), MessageType::Question, "Which database?")]);
    assert!(c.mark_message_read_at(&mut once, 5, Timestamp::new(NOW, 0)).is_ok());
    assert_eq!(mailbox.get("analyst-to-architect.md"), once.get("analyst-to-architect.md"));
}
