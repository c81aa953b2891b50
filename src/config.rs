use vstd::prelude::*;

verus! {

/// One queue to inspect: its broker name, an optional display alias and an
/// optional time limit for the query, in milliseconds.
#[derive(Debug)]
pub struct QueueConfig {
    pub name: String,
    pub alias: Option<String>,
    pub timeout_ms: Option<u64>,
}

/// The mathematical form of a [`QueueConfig`].
pub struct QueueTarget {
    pub name: Seq<char>,
    pub alias: Option<Seq<char>>,
    pub timeout_ms: Option<u64>,
}

impl View for QueueConfig {
    type V = QueueTarget;

    open spec fn view(&self) -> QueueTarget {
        QueueTarget { name: self.name@, alias: self.alias.deep_view(), timeout_ms: self.timeout_ms }
    }
}

/// The global map from queue name to display alias. Each name occurs once.
#[derive(Debug)]
pub struct AliasMap {
    entries: Vec<(String, String)>,
}

impl View for AliasMap {
    type V = Map<Seq<char>, Seq<char>>;

    closed spec fn view(&self) -> Map<Seq<char>, Seq<char>> {
        Map::new(
            |k: Seq<char>| exists|i: int| 0 <= i < self.entries@.len() && self.entries@[i].0@ == k,
            |k: Seq<char>|
                self.entries@[choose|i: int| 0 <= i < self.entries@.len() && self.entries@[i].0@ == k].1@,
        )
    }
}

impl AliasMap {
    /// Each name occurs in one entry at most.
    pub closed spec fn wf(&self) -> bool {
        forall|i: int, j: int|
            0 <= i < self.entries@.len() && 0 <= j < self.entries@.len() && i != j
                ==> self.entries@[i].0@ != self.entries@[j].0@
    }

    /// An empty map.
    pub fn new() -> (r: AliasMap)
        ensures
            r.wf(),
            r@ == Map::<Seq<char>, Seq<char>>::empty(),
    {
        let r = AliasMap { entries: Vec::new() };
        assert(r@ =~= Map::<Seq<char>, Seq<char>>::empty());
        r
    }

    fn find(&self, name: &String) -> (r: Option<usize>)
        requires
            self.wf(),
        ensures
            match r {
                Some(i) => i < self.entries@.len() && self.entries@[i as int].0@ == name@,
                None => forall|i: int| 0 <= i < self.entries@.len() ==> self.entries@[i].0@ != name@,
            },
    {
        let mut i: usize = 0;
        while i < self.entries.len()
            invariant
                i <= self.entries@.len(),
                forall|j: int| 0 <= j < i ==> self.entries@[j].0@ != name@,
            decreases self.entries@.len() - i,
        {
            if self.entries[i].0 == *name {
                return Some(i);
            }
            i = i + 1;
        }
        None
    }

    /// Sets the alias of `name`, replacing the one it had.
    pub fn insert(&mut self, name: String, alias: String)
        requires
            old(self).wf(),
        ensures
            final(self).wf(),
            final(self)@ == old(self)@.insert(name@, alias@),
    {
        let ghost key = name@;
        let ghost value = alias@;
        match self.find(&name) {
            Some(i) => {
                self.entries.set(i, (name, alias));
                assert forall|k: Seq<char>| #[trigger] self@.contains_key(k) <==> old(self)@.insert(key, value).contains_key(k) by {
                    if old(self)@.contains_key(k) {
                        let j = choose|j: int| 0 <= j < old(self).entries@.len() && old(self).entries@[j].0@ == k;
                        assert(self.entries@[j].0@ == k);
                    }
                    if k == key {
                        assert(self.entries@[i as int].0@ == k);
                    }
                };
                assert forall|k: Seq<char>| #[trigger] self@.contains_key(k) implies self@[k] == old(self)@.insert(key, value)[k] by {
                    let j = choose|j: int| 0 <= j < self.entries@.len() && self.entries@[j].0@ == k;
                    if k != key {
                        assert(old(self).entries@[j].0@ == k);
                        let j0 = choose|j0: int| 0 <= j0 < old(self).entries@.len() && old(self).entries@[j0].0@ == k;
                        assert(j0 == j);
                    }
                };
                assert(self@ =~= old(self)@.insert(key, value));
            },
            None => {
                self.entries.push((name, alias));
                let ghost n = old(self).entries@.len() as int;
                assert forall|k: Seq<char>| #[trigger] self@.contains_key(k) <==> old(self)@.insert(key, value).contains_key(k) by {
                    if old(self)@.contains_key(k) {
                        let j = choose|j: int| 0 <= j < old(self).entries@.len() && old(self).entries@[j].0@ == k;
                        assert(self.entries@[j].0@ == k);
                    }
                    if k == key {
                        assert(self.entries@[n].0@ == k);
                    }
                };
                assert forall|k: Seq<char>| #[trigger] self@.contains_key(k) implies self@[k] == old(self)@.insert(key, value)[k] by {
                    let j = choose|j: int| 0 <= j < self.entries@.len() && self.entries@[j].0@ == k;
                    if k != key {
                        assert(old(self).entries@[j].0@ == k);
                        let j0 = choose|j0: int| 0 <= j0 < old(self).entries@.len() && old(self).entries@[j0].0@ == k;
                        assert(j0 == j);
                    } else {
                        assert(j == n);
                    }
                };
                assert(self@ =~= old(self)@.insert(key, value));
            },
        }
    }

    /// The alias of `name`, if the map has one.
    pub fn get(&self, name: &String) -> (r: Option<&String>)
        requires
            self.wf(),
        ensures
            match r {
                Some(a) => self@.contains_key(name@) && a@ == self@[name@],
                None => !self@.contains_key(name@),
            },
    {
        match self.find(name) {
            Some(i) => {
                let ghost k = name@;
                assert(self@.contains_key(k));
                let ghost j = choose|j: int| 0 <= j < self.entries@.len() && self.entries@[j].0@ == k;
                assert(j == i);
                Some(&self.entries[i].1)
            },
            None => None,
        }
    }
}

/// The channel through which an alert is sent.
#[derive(Clone, Copy, Debug, PartialEq, Eq, Structural)]
pub enum WarningType {
    DingTalk,
}

/// When a queue counts as backlogged, and where to say so.
#[derive(Debug)]
pub struct RabbitMQWarningConfig {
    pub enabled: bool,
    pub warning_queue_size: u32,
    pub warning_type: Option<WarningType>,
}

/// The broker endpoint, the queues to inspect and the alerting rule.
#[derive(Debug)]
pub struct RabbitMQConfig {
    pub host: String,
    pub port: u16,
    pub vhost: String,
    pub username: String,
    pub password: String,
    pub max_retries: u32,
    pub retry_delay_ms: u64,
    pub queues: Vec<QueueConfig>,
    pub queue_aliases: AliasMap,
    pub warning: RabbitMQWarningConfig,
}

/// The credentials of the webhook that alerts go to.
#[derive(Debug)]
pub struct DingTalkConfig {
    pub webhook_url: String,
    pub secret: String,
    pub user_id: String,
    pub custom_robot_token: String,
}

/// Global alerting switches.
#[derive(Debug)]
pub struct WarningConfig {
    pub warning_valid: bool,
    pub warning_type: Option<WarningType>,
    pub warning_time_interval: u16,
}

/// The whole configuration of a monitoring run.
#[derive(Debug)]
pub struct Config {
    pub rabbitmq: RabbitMQConfig,
    pub dingtalk: DingTalkConfig,
    pub warning: WarningConfig,
}

impl RabbitMQConfig {
    /// The configuration is usable: the alias map is well formed.
    pub open spec fn wf(&self) -> bool {
        self.queue_aliases.wf()
    }
}

} // verus!
