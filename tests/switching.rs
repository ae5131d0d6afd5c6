use git_ledger::identity::{Identity, KeyPair, SwitchError};
use git_ledger::registry::Registry;
use git_ledger::switcher::{Effect, IdentitySwitcher};

/// The external state that effects act on, held in memory.
#[derive(Default)]
struct World {
    installed: Option<(Vec<u8>, Vec<u8>)>,
    config: Option<(String, String)>,
    notices: Vec<Option<String>>,
}

impl World {
    fn perform(&mut self, plan: Vec<Effect>) {
        for e in plan {
            match e {
                Effect::InstallKeys(k) => self.installed = Some((k.private_key, k.public_key)),
                Effect::UninstallKeys => self.installed = None,
                Effect::WriteConfig { name, email } => self.config = Some((name, email)),
                Effect::ClearConfig => self.config = None,
                Effect::NotifyRemoved(email) => self.notices.push(Some(email)),
                Effect::NotifyAllRemoved => self.notices.push(None),
            }
        }
    }

    fn read_config(&self) -> (String, String) {
        match &self.config {
            Some((n, e)) => (n.clone(), e.clone()),
            None => (String::new(), String::new()),
        }
    }
}

fn keys(tag: &str) -> KeyPair {
    KeyPair {
        private_key: format!("PRIVATE {}", tag).into_bytes(),
        public_key: format!("ssh-ed25519 AAAA{} {}", tag.len(), tag).into_bytes(),
    }
}

fn create(s: &mut IdentitySwitcher, w: &mut World, name: &str, email: &str) {
    let plan = s.create(name.to_string(), email.to_string(), keys(email));
    w.perform(plan);
}

fn current(s: &IdentitySwitcher, w: &World) -> Result<Identity, SwitchError> {
    let (n, e) = w.read_config();
    s.query_current(n, e)
}

fn active_emails(s: &IdentitySwitcher) -> Vec<String> {
    s.list().into_iter().filter(|i| i.is_active).map(|i| i.email).collect()
}

fn setup() -> (IdentitySwitcher, World) {
    (IdentitySwitcher::new(Registry::new()), World::default())
}

#[test]
fn create_then_query_current_reports_active_identity() {
    let (mut s, mut w) = setup();
    create(&mut s, &mut w, "Ann", "ann@x.com");
    let id = current(&s, &w).unwrap();
    assert_eq!(id.name, "Ann");
    assert_eq!(id.email, "ann@x.com");
    assert!(id.is_active);
    assert_eq!(w.installed, Some((keys("ann@x.com").private_key, keys("ann@x.com").public_key)));
}

#[test]
fn switch_to_unknown_fails_and_keeps_active() {
    let (mut s, mut w) = setup();
    create(&mut s, &mut w, "Ann", "ann@x.com");
    create(&mut s, &mut w, "Bob", "bob@x.com");
    let r = s.switch_to(&"carol@x.com".to_string());
    assert!(matches!(r, Err(SwitchError::NotFound)));
    assert_eq!(active_emails(&s), vec!["bob@x.com".to_string()]);
    let id = current(&s, &w).unwrap();
    assert_eq!(id.email, "bob@x.com");
    assert!(id.is_active);
}

#[test]
fn switch_to_known_installs_its_keys_and_config() {
    let (mut s, mut w) = setup();
    create(&mut s, &mut w, "Ann", "ann@x.com");
    create(&mut s, &mut w, "Bob", "bob@x.com");
    let plan = s.switch_to(&"ann@x.com".to_string()).unwrap();
    w.perform(plan);
    assert_eq!(active_emails(&s), vec!["ann@x.com".to_string()]);
    assert_eq!(w.config, Some(("Ann".to_string(), "ann@x.com".to_string())));
    assert_eq!(w.installed, Some((keys("ann@x.com").private_key, keys("ann@x.com").public_key)));
}

#[test]
fn remove_active_clears_config_and_installed_keys() {
    let (mut s, mut w) = setup();
    create(&mut s, &mut w, "Ann", "ann@x.com");
    let plan = s.remove(&"ann@x.com".to_string()).unwrap();
    assert!(matches!(plan.last(), Some(Effect::NotifyRemoved(e)) if e == "ann@x.com"));
    w.perform(plan);
    assert!(matches!(current(&s, &w), Err(SwitchError::NoIdentityConfigured)));
    assert_eq!(w.installed, None);
    assert_eq!(w.config, None);
    assert_eq!(w.notices, vec![Some("ann@x.com".to_string())]);
}

#[test]
fn remove_inactive_keeps_active_config_and_keys() {
    let (mut s, mut w) = setup();
    create(&mut s, &mut w, "Ann", "ann@x.com");
    create(&mut s, &mut w, "Bob", "bob@x.com");
    let installed = w.installed.clone();
    let config = w.config.clone();
    let plan = s.remove(&"ann@x.com".to_string()).unwrap();
    assert_eq!(plan.len(), 1);
    w.perform(plan);
    assert_eq!(w.installed, installed);
    assert_eq!(w.config, config);
    assert_eq!(active_emails(&s), vec!["bob@x.com".to_string()]);
    assert_eq!(w.notices, vec![Some("ann@x.com".to_string())]);
}

#[test]
fn create_then_get_public_key_round_trip() {
    let (mut s, mut w) = setup();
    let generated = keys("ann@x.com");
    let expected = String::from_utf8(generated.public_key.clone()).unwrap();
    let plan = s.create("Ann".to_string(), "ann@x.com".to_string(), generated);
    w.perform(plan);
    assert_eq!(s.get_public_key(&"ann@x.com".to_string()).unwrap(), expected);
}

#[test]
fn remove_all_empties_registry_keys_and_config() {
    let (mut s, mut w) = setup();
    create(&mut s, &mut w, "Ann", "ann@x.com");
    create(&mut s, &mut w, "Bob", "bob@x.com");
    let plan = s.remove_all();
    assert!(matches!(plan.last(), Some(Effect::NotifyAllRemoved)));
    w.perform(plan);
    assert!(s.list().is_empty());
    assert_eq!(w.installed, None);
    assert!(matches!(current(&s, &w), Err(SwitchError::NoIdentityConfigured)));
    assert_eq!(w.notices, vec![None]);
}

#[test]
fn remove_twice_second_fails_and_changes_nothing() {
    let (mut s, mut w) = setup();
    create(&mut s, &mut w, "Ann", "ann@x.com");
    create(&mut s, &mut w, "Bob", "bob@x.com");
    let email = "ann@x.com".to_string();
    let plan = s.remove(&email).unwrap();
    w.perform(plan);
    let r = s.remove(&email);
    assert!(matches!(r, Err(SwitchError::NotFound)));
    assert_eq!(active_emails(&s), vec!["bob@x.com".to_string()]);
    assert_eq!(s.list().len(), 1);
}

#[test]
fn at_most_one_active_over_a_sequence() {
    let (mut s, mut w) = setup();
    create(&mut s, &mut w, "Ann", "ann@x.com");
    assert_eq!(active_emails(&s).len(), 1);
    create(&mut s, &mut w, "Bob", "bob@x.com");
    assert_eq!(active_emails(&s).len(), 1);
    create(&mut s, &mut w, "Cy", "cy@x.com");
    assert_eq!(active_emails(&s).len(), 1);
    w.perform(s.switch_to(&"ann@x.com".to_string()).unwrap());
    assert_eq!(active_emails(&s), vec!["ann@x.com".to_string()]);
    w.perform(s.remove(&"bob@x.com".to_string()).unwrap());
    assert_eq!(active_emails(&s).len(), 1);
    w.perform(s.remove(&"ann@x.com".to_string()).unwrap());
    assert_eq!(active_emails(&s).len(), 0);
    w.perform(s.switch_to(&"cy@x.com".to_string()).unwrap());
    assert_eq!(active_emails(&s), vec!["cy@x.com".to_string()]);
    assert_eq!(w.config, Some(("Cy".to_string(), "cy@x.com".to_string())));
}

#[test]
fn get_public_key_of_unknown_email_is_not_found() {
    let (s, _w) = setup();
    assert!(matches!(s.get_public_key(&"nobody@x.com".to_string()), Err(SwitchError::NotFound)));
}

#[test]
fn get_public_key_of_invalid_utf8_is_encoding_error() {
    let (mut s, _w) = setup();
    let bad = KeyPair { private_key: vec![1, 2, 3], public_key: vec![0xff, 0xfe, 0x41] };
    let _ = s.create("Ann".to_string(), "ann@x.com".to_string(), bad);
    assert!(matches!(s.get_public_key(&"ann@x.com".to_string()), Err(SwitchError::EncodingError)));
}

#[test]
fn get_public_key_decodes_multibyte_text() {
    let (mut s, _w) = setup();
    let kp = KeyPair { private_key: vec![], public_key: "clé ✓".as_bytes().to_vec() };
    let _ = s.create("Zoé".to_string(), "zoe@x.com".to_string(), kp);
    assert_eq!(s.get_public_key(&"zoe@x.com".to_string()).unwrap(), "clé ✓");
}

#[test]
fn query_current_with_unset_name_or_email_fails() {
    let (s, _w) = setup();
    assert!(matches!(s.query_current(String::new(), "a@x.com".to_string()), Err(SwitchError::NoIdentityConfigured)));
    assert!(matches!(s.query_current("Ann".to_string(), String::new()), Err(SwitchError::NoIdentityConfigured)));
}

#[test]
fn query_current_of_unregistered_email_is_inactive() {
    let (s, _w) = setup();
    let id = s.query_current("Eve".to_string(), "eve@x.com".to_string()).unwrap();
    assert_eq!(id.name, "Eve");
    assert_eq!(id.email, "eve@x.com");
    assert!(!id.is_active);
}

#[test]
fn create_over_existing_email_replaces_it() {
    let (mut s, mut w) = setup();
    create(&mut s, &mut w, "Ann", "ann@x.com");
    let plan = s.create("Annie".to_string(), "ann@x.com".to_string(), keys("second"));
    w.perform(plan);
    let all = s.list();
    assert_eq!(all.len(), 1);
    assert_eq!(all[0].name, "Annie");
    assert_eq!(s.registry.get(&"ann@x.com".to_string()).unwrap().private_key, keys("second").private_key);
}

#[test]
fn upsert_active_repairs_several_active_rows() {
    let mut r = Registry::new();
    r.insert_row("a@x.com".to_string(), "A".to_string(), true, keys("a"));
    r.insert_row("b@x.com".to_string(), "B".to_string(), true, keys("b"));
    assert!(r.active_flag(&"a@x.com".to_string()));
    assert!(r.active_flag(&"b@x.com".to_string()));
    r.upsert_active("C".to_string(), "c@x.com".to_string(), keys("c"));
    assert!(!r.active_flag(&"a@x.com".to_string()));
    assert!(!r.active_flag(&"b@x.com".to_string()));
    assert!(r.active_flag(&"c@x.com".to_string()));
    assert_eq!(r.list().len(), 3);
}

#[test]
fn registry_activate_and_name_lookup() {
    let mut r = Registry::new();
    r.insert_row("a@x.com".to_string(), "A".to_string(), false, keys("a"));
    assert!(matches!(r.activate(&"z@x.com".to_string()), Err(SwitchError::NotFound)));
    assert!(!r.active_flag(&"a@x.com".to_string()));
    assert!(r.activate(&"a@x.com".to_string()).is_ok());
    assert!(r.active_flag(&"a@x.com".to_string()));
    assert_eq!(r.name_of(&"a@x.com".to_string()).unwrap(), "A");
    assert!(matches!(r.name_of(&"z@x.com".to_string()), Err(SwitchError::NotFound)));
    assert!(!r.active_flag(&"z@x.com".to_string()));
}

#[test]
fn registry_remove_reports_whether_active() {
    let mut r = Registry::new();
    r.insert_row("a@x.com".to_string(), "A".to_string(), false, keys("a"));
    r.insert_row("b@x.com".to_string(), "B".to_string(), true, keys("b"));
    assert_eq!(r.remove(&"a@x.com".to_string()).unwrap(), false);
    assert_eq!(r.remove(&"b@x.com".to_string()).unwrap(), true);
    assert!(r.list().is_empty());
    assert!(matches!(r.get(&"b@x.com".to_string()), Err(SwitchError::NotFound)));
}

#[test]
fn clear_current_only_unsets_config() {
    let (mut s, mut w) = setup();
    create(&mut s, &mut w, "Ann", "ann@x.com");
    w.perform(s.clear_current());
    assert_eq!(w.config, None);
    assert!(w.installed.is_some());
    assert_eq!(active_emails(&s), vec!["ann@x.com".to_string()]);
}

#[test]
fn key_pair_duplicate_and_error_messages() {
    let k = keys("a");
    let d = k.duplicate();
    assert_eq!(d.private_key, k.private_key);
    assert_eq!(d.public_key, k.public_key);
    assert_eq!(SwitchError::NoIdentityConfigured.message(), "No current user found");
    assert_eq!(SwitchError::StorageFailure("disk".to_string()).message(), "disk");
}
