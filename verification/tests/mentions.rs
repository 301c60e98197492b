use drill::agents::{AgentRole, ConfigAgent, ManagerEvent};
use drill::json::Json;
use drill::manager::AgentManager;
use drill::mention::{attachment, image_mentions, prepare_turn};
use drill::turn::Turn;
use drill::wire::{anthropic_messages, google_contents, responses_input};

#[test]
fn images_are_told_from_other_mentions() {
    let found = image_mentions("veja @a.png e @b.rs e @fotos/c.JPEG, @ @d.jpg");
    assert!(found.contains(&"a.png".to_string()));
    assert!(found.contains(&"d.jpg".to_string()));
    assert!(!found.contains(&"b.rs".to_string()));
    assert!(image_mentions("sem menção a.png").is_empty());
}

#[test]
fn message_without_image_is_kept() {
    let p = prepare_turn("leia @src/lib.rs", &vec![], false);
    assert_eq!(p.prompt, "leia @src/lib.rs");
    assert!(p.images.is_empty() && p.notices.is_empty());
}

#[test]
fn image_is_attached_where_the_model_sees() {
    let p = prepare_turn("veja @a.png e @b.jpg", &vec![true, false], true);
    assert_eq!(p.prompt, "veja @a.png e @b.jpg");
    assert_eq!(p.images, vec!["a.png".to_string()]);
    assert!(p.notices.is_empty());
}

#[test]
fn image_is_warned_of_where_the_model_does_not_see() {
    let p = prepare_turn("veja @a.png e @b.jpg", &vec![true, false], false);
    assert_eq!(p.prompt, "veja @a.png e @b.jpg\n[AVISO] a.png: imagem não processada");
    assert!(p.images.is_empty());
    assert_eq!(p.notices, vec!["a.png: imagem não processada".to_string()]);
}

#[test]
fn attachment_holds_the_bytes() {
    let a = attachment("a.png", &b"ABCD".to_vec()).unwrap();
    assert_eq!((a.mime.as_str(), a.data.as_str()), ("image/png", "QUJDRA=="));
    let b = attachment("b.jpg", &b"ABCD".to_vec()).unwrap();
    assert_eq!(b.mime, "image/jpeg");
    assert!(attachment("a.png", &Vec::new()).is_none());
}

fn begun(input: &str) -> (Turn, Vec<ManagerEvent>) {
    let mut m = AgentManager::new();
    m.add(ConfigAgent {
        agent_id: "a".to_string(),
        role: AgentRole::Agent,
        prompt: "persona".to_string(),
        tools_json: None,
        force_tools: false,
    });
    m.begin_remote("a", input).unwrap()
}

fn at<'a>(v: &'a Json, key: &str) -> &'a Json {
    v.get(key).unwrap()
}

#[test]
fn attached_image_reaches_each_vendor() {
    let (mut turn, _) = begun("veja isso");
    let n = turn.messages.len();
    turn.attach(&vec![attachment("a.png", &b"ABCD".to_vec()).unwrap()]);
    assert_eq!(turn.messages.len(), n);

    let (_, input) = responses_input(&turn.messages);
    let last = &input[input.len() - 1];
    assert_eq!(at(last, "type").as_text(), Some("input_image"));
    assert_eq!(at(last, "image_url").as_text(), Some("data:image/png;base64,QUJDRA=="));

    let (_, msgs) = anthropic_messages(&turn.messages);
    let blocks = at(&msgs[msgs.len() - 1], "content").as_items().unwrap();
    assert_eq!(at(&blocks[0], "text").as_text(), Some("veja isso"));
    assert_eq!(at(at(&blocks[1], "source"), "data").as_text(), Some("QUJDRA=="));

    let (_, contents) = google_contents(&turn.messages);
    let parts = at(&contents[contents.len() - 1], "parts").as_items().unwrap();
    assert_eq!(at(at(&parts[1], "inlineData"), "mimeType").as_text(), Some("image/png"));
}

#[test]
fn nothing_attached_changes_nothing() {
    let (mut turn, _) = begun("oi");
    let before = turn.messages.len();
    turn.attach(&Vec::new());
    assert_eq!(turn.messages.len(), before);
    let last = &turn.messages[before - 1];
    assert_eq!(at(last, "content").as_text(), Some("oi"));
}
