[package]
name = "routing_core"
version = "0.1.0"
edition = "2021"
publish = false

[dependencies]
accumulator = "=0.2.0"
itertools = "=0.4.19"
kademlia_routing_table = "=0.6.0"
lru_time_cache = "=0.2.7"
maidsafe_utilities = "=0.19.0"
message_filter = "=0.2.0"
rustc-serialize = "=0.3.25"
sodiumoxide = "=0.2.7"
time = "=0.1.45"

[dev-dependencies]
rand = "=0.3.23"
