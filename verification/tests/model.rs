use std::collections::{BTreeMap, BTreeSet};

use pubsub_hub::error::RegistryError;
use pubsub_hub::fanout::publish;
use pubsub_hub::registry::Registry;
use tokio::sync::mpsc::unbounded_channel;

fn step(seed: &mut u64) -> u64 {
    *seed = seed
        .wrapping_mul(6364136223846793005)
        .wrapping_add(1442695040888963407);
    *seed >> 33
}

#[test]
fn registry_agrees_with_a_set_of_identifiers() {
    let mut registry = Registry::new();
    let mut model: BTreeSet<String> = BTreeSet::new();
    let mut seed: u64 = 0x9e37_79b9_7f4a_7c15;
    for _ in 0..600 {
        let id = format!("client-{}", step(&mut seed) % 7);
        if step(&mut seed) % 2 == 0 {
            let expected = if model.insert(id.clone()) {
                Ok(())
            } else {
                Err(RegistryError::AlreadyRegistered)
            };
            assert_eq!(registry.register(id, 0, Vec::new()), expected);
        } else {
            let expected = if model.remove(&id) {
                Ok(())
            } else {
                Err(RegistryError::NotFound)
            };
            assert_eq!(registry.unregister(&id), expected);
        }
        assert_eq!(registry.len(), model.len());
        assert_eq!(registry.is_empty(), model.is_empty());
        for k in 0..7 {
            let id = format!("client-{}", k);
            assert_eq!(registry.contains(&id), model.contains(&id));
        }
    }
}

#[test]
fn subscribers_agree_with_a_model_of_the_records() {
    let names = ["sports", "news", "weather"];
    let mut registry = Registry::new();
    let mut model: BTreeMap<String, (BTreeSet<String>, bool)> = BTreeMap::new();
    let mut seed: u64 = 0x2545_f491_4f6c_dd1d;
    for _ in 0..800 {
        let id = format!("c{}", step(&mut seed) % 5);
        let topic = names[(step(&mut seed) % 3) as usize].to_string();
        let known = model.contains_key(&id);
        let lookup = if known { Ok(()) } else { Err(RegistryError::UnknownClient) };
        match step(&mut seed) % 6 {
            0 => {
                let supplied = vec![topic.clone(), topic.clone()];
                let expected = if known { Err(RegistryError::AlreadyRegistered) } else { Ok(()) };
                assert_eq!(registry.register(id.clone(), 1, supplied), expected);
                if !known {
                    model.insert(id, (BTreeSet::from([topic]), false));
                }
            }
            1 => {
                let expected = if known { Ok(()) } else { Err(RegistryError::NotFound) };
                assert_eq!(registry.unregister(&id), expected);
                model.remove(&id);
            }
            2 => {
                let (tx, _rx) = unbounded_channel();
                assert_eq!(registry.attach(&id, tx), lookup);
                if let Some(record) = model.get_mut(&id) {
                    record.1 = true;
                }
            }
            3 => {
                assert_eq!(registry.detach(&id), lookup);
                model.remove(&id);
            }
            4 => {
                assert_eq!(registry.add_topic(&id, topic.clone()), lookup);
                if let Some(record) = model.get_mut(&id) {
                    record.0.insert(topic);
                }
            }
            _ => {
                assert_eq!(registry.remove_topic(&id, &topic), lookup);
                if let Some(record) = model.get_mut(&id) {
                    record.0.remove(&topic);
                }
            }
        }
        assert_eq!(registry.len(), model.len());
        for name in names {
            let expected: Vec<String> = model
                .iter()
                .filter(|(_, record)| record.1 && record.0.contains(name))
                .map(|(id, _)| id.clone())
                .collect();
            let mut found: Vec<String> = registry
                .snapshot_subscribers(name)
                .into_iter()
                .map(|subscriber| subscriber.client_id)
                .collect();
            found.sort();
            assert_eq!(found, expected);
            assert_eq!(publish(&registry, name, "x").subscribers, expected.len());
        }
        for (id, record) in &model {
            let client = registry.get(id).unwrap();
            assert_eq!(client.is_connected(), record.1);
            for name in names {
                assert_eq!(client.subscribes_to(name), record.0.contains(name));
            }
        }
    }
}
