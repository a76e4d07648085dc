//! The server's registry of connected workers, and the choice of the worker
//! that receives each new task.
use crate::judge::{JudgeInfo, JudgeLoad, Language};
use vstd::prelude::*;

verus! {

/// A worker whose last heartbeat is this many seconds old is no longer chosen.
pub const HEARTBEAT_TIMEOUT_SECS: i64 = 60;

/// What the server knows of one registered worker.
#[derive(Clone, Debug)]
pub struct JudgeConnection {
    pub info: JudgeInfo,
    pub load: JudgeLoad,
    /// Seconds since the Unix epoch of the last heartbeat.
    pub last_heartbeat: i64,
}

/// The load score in thousandths of a point: a hundred points per running
/// task, half a point per percent of CPU and three tenths per percent of memory.
pub open spec fn score_of(load: JudgeLoad) -> int {
    load.running_tasks * 100_000 + load.cpu_usage * 5 + load.memory_usage * 3
}

impl JudgeConnection {
    /// This worker's load score, in thousandths of a point.
    pub fn load_score(&self) -> (r: u64)
        ensures
            r == score_of(self.load),
    {
        self.load.running_tasks as u64 * 100_000 + self.load.cpu_usage as u64 * 5
            + self.load.memory_usage as u64 * 3
    }
}

/// A heartbeat at `last` is recent enough at `now`.
pub open spec fn is_live(last: i64, now: i64) -> bool {
    now - last < HEARTBEAT_TIMEOUT_SECS
}

/// A worker that may receive a task in `lang` at `now`.
pub open spec fn eligible(c: JudgeConnection, lang: Language, now: i64) -> bool {
    is_live(c.last_heartbeat, now) && c.info.languages@.contains(lang)
}

/// The smallest load score among the eligible workers, if there is one.
pub open spec fn min_eligible(js: Seq<JudgeConnection>, lang: Language, now: i64) -> Option<int>
    decreases js.len(),
{
    if js.len() == 0 {
        None
    } else {
        let rest = min_eligible(js.drop_last(), lang, now);
        let c = js.last();
        if eligible(c, lang, now) {
            match rest {
                None => Some(score_of(c.load)),
                Some(m) => Some(
                    if score_of(c.load) < m {
                        score_of(c.load)
                    } else {
                        m
                    },
                ),
            }
        } else {
            rest
        }
    }
}

/// A score within a fifth above the smallest one.
pub open spec fn near_best(score: int, min: int) -> bool {
    5 * score <= 6 * min
}

/// The ids of the eligible workers whose score is near `min`, in order.
pub open spec fn candidate_ids(js: Seq<JudgeConnection>, lang: Language, now: i64, min: int) -> Seq<
    Seq<char>,
>
    decreases js.len(),
{
    if js.len() == 0 {
        Seq::empty()
    } else {
        let c = js.last();
        candidate_ids(js.drop_last(), lang, now, min) + if eligible(c, lang, now) && near_best(
            score_of(c.load),
            min,
        ) {
            seq![c.info.judge_id@]
        } else {
            Seq::empty()
        }
    }
}

/// Why no worker could be chosen.
#[derive(Clone, Copy, Debug, PartialEq, Eq, Structural)]
pub enum DispatchError {
    /// No worker is connected.
    NoJudge,
    /// Workers are connected, but none is live and supports the language.
    NoneAvailable(Language),
}

/// The candidates for a task in `lang` at `now`, or why there are none.
pub open spec fn candidates_of(js: Seq<JudgeConnection>, lang: Language, now: i64) -> Result<
    Seq<Seq<char>>,
    DispatchError,
> {
    if js.len() == 0 {
        Err(DispatchError::NoJudge)
    } else {
        match min_eligible(js, lang, now) {
            None => Err(DispatchError::NoneAvailable(lang)),
            Some(m) => Ok(candidate_ids(js, lang, now, m)),
        }
    }
}

/// Worker ids are unique in the registry.
pub open spec fn ids_unique(js: Seq<JudgeConnection>) -> bool {
    forall|i: int, j: int|
        0 <= i < j < js.len() ==> js[i].info.judge_id@ != js[j].info.judge_id@
}

/// Relies on `rand::rng` and `Rng::random_range`: a value drawn from `0..n`.
#[verifier::external_body]
fn random_below(n: usize) -> (r: usize)
    requires
        n > 0,
    ensures
        r < n,
{
    rand::Rng::random_range(&mut rand::rng(), 0..n)
}

fn contains_language(langs: &Vec<Language>, lang: Language) -> (r: bool)
    ensures
        r == langs@.contains(lang),
{
    let mut i: usize = 0;
    while i < langs.len()
        invariant
            i <= langs@.len(),
            forall|j: int| 0 <= j < i ==> langs@[j] != lang,
        decreases langs@.len() - i,
    {
        if langs[i] == lang {
            return true;
        }
        i = i + 1;
    }
    false
}

fn is_eligible(c: &JudgeConnection, lang: Language, now: i64) -> (r: bool)
    ensures
        r == eligible(*c, lang, now),
{
    (now as i128 - c.last_heartbeat as i128) < HEARTBEAT_TIMEOUT_SECS as i128 && contains_language(
        &c.info.languages,
        lang,
    )
}

proof fn lemma_min_is_lower_bound(js: Seq<JudgeConnection>, lang: Language, now: i64)
    ensures
        match min_eligible(js, lang, now) {
            None => forall|i: int| 0 <= i < js.len() ==> !eligible(#[trigger] js[i], lang, now),
            Some(m) => m >= 0 && exists|i: int|
                0 <= i < js.len() && eligible(#[trigger] js[i], lang, now) && score_of(js[i].load)
                    == m,
        },
    decreases js.len(),
{
    if js.len() > 0 {
        let init = js.drop_last();
        lemma_min_is_lower_bound(init, lang, now);
        match min_eligible(init, lang, now) {
            None => {
                assert forall|i: int| 0 <= i < init.len() implies !eligible(
                    #[trigger] js[i],
                    lang,
                    now,
                ) by {
                    assert(js[i] == init[i]);
                }
            },
            Some(m) => {
                let i = choose|i: int|
                    0 <= i < init.len() && eligible(#[trigger] init[i], lang, now) && score_of(
                        init[i].load,
                    ) == m;
                assert(js[i] == init[i]);
            },
        }
        assert(js[js.len() - 1] == js.last());
    }
}

proof fn lemma_candidate_listed(js: Seq<JudgeConnection>, lang: Language, now: i64, min: int, i: int)
    requires
        0 <= i < js.len(),
        eligible(js[i], lang, now),
        near_best(score_of(js[i].load), min),
    ensures
        candidate_ids(js, lang, now, min).contains(js[i].info.judge_id@),
    decreases js.len(),
{
    let init = js.drop_last();
    let tail = if eligible(js.last(), lang, now) && near_best(score_of(js.last().load), min) {
        seq![js.last().info.judge_id@]
    } else {
        Seq::<Seq<char>>::empty()
    };
    assert(candidate_ids(js, lang, now, min) == candidate_ids(init, lang, now, min) + tail);
    if i == js.len() - 1 {
        assert(tail[0] == js[i].info.judge_id@);
        assert(candidate_ids(js, lang, now, min)[candidate_ids(init, lang, now, min).len() as int]
            == js[i].info.judge_id@);
    } else {
        assert(js[i] == init[i]);
        lemma_candidate_listed(init, lang, now, min, i);
        let k = choose|k: int|
            0 <= k < candidate_ids(init, lang, now, min).len() && candidate_ids(
                init,
                lang,
                now,
                min,
            )[k] == js[i].info.judge_id@;
        assert(candidate_ids(js, lang, now, min)[k] == js[i].info.judge_id@);
    }
}

/// The connected workers, one entry per id.
pub struct WorkerRegistry {
    pub judges: Vec<JudgeConnection>,
}

impl WorkerRegistry {
    pub open spec fn wf(&self) -> bool {
        ids_unique(self.judges@)
    }

    /// A registry with no worker.
    pub fn new() -> (r: WorkerRegistry)
        ensures
            r.wf(),
            r.judges@.len() == 0,
    {
        WorkerRegistry { judges: Vec::new() }
    }

    /// Where the worker `id` stands, if it is registered.
    pub fn position(&self, id: &String) -> (r: Option<usize>)
        ensures
            match r {
                Some(k) => k < self.judges@.len() && self.judges@[k as int].info.judge_id@ == id@,
                None => forall|j: int|
                    0 <= j < self.judges@.len() ==> self.judges@[j].info.judge_id@ != id@,
            },
    {
        let mut i: usize = 0;
        while i < self.judges.len()
            invariant
                i <= self.judges@.len(),
                forall|j: int| 0 <= j < i ==> self.judges@[j].info.judge_id@ != id@,
            decreases self.judges@.len() - i,
        {
            if self.judges[i].info.judge_id == *id {
                return Some(i);
            }
            i = i + 1;
        }
        None
    }

    /// Adds a worker, or replaces the entry that has its id.
    pub fn insert(&mut self, conn: JudgeConnection)
        requires
            old(self).wf(),
        ensures
            final(self).wf(),
            (exists|k: int|
                0 <= k < old(self).judges@.len() && old(self).judges@[k].info.judge_id@
                    == conn.info.judge_id@ && final(self).judges@ == old(self).judges@.update(
                    k,
                    conn,
                )) || ((forall|j: int|
                0 <= j < old(self).judges@.len() ==> old(self).judges@[j].info.judge_id@
                    != conn.info.judge_id@) && final(self).judges@ == old(self).judges@.push(
                conn,
            )),
    {
        match self.position(&conn.info.judge_id) {
            Some(k) => {
                self.judges.set(k, conn);
            },
            None => {
                self.judges.push(conn);
            },
        }
    }

    /// Records a heartbeat of worker `id`: its new load, and a heartbeat time
    /// that never moves back. Returns whether the worker is registered.
    pub fn heartbeat(&mut self, id: &String, load: JudgeLoad, now: i64) -> (r: bool)
        requires
            old(self).wf(),
        ensures
            final(self).wf(),
            r == exists|k: int|
                0 <= k < old(self).judges@.len() && old(self).judges@[k].info.judge_id@ == id@,
            !r ==> final(self).judges@ == old(self).judges@,
            r ==> exists|k: int|
                0 <= k < old(self).judges@.len() && old(self).judges@[k].info.judge_id@ == id@
                    && final(self).judges@ == old(self).judges@.update(
                    k,
                    JudgeConnection {
                        info: old(self).judges@[k].info,
                        load,
                        last_heartbeat: if now > old(self).judges@[k].last_heartbeat {
                            now
                        } else {
                            old(self).judges@[k].last_heartbeat
                        },
                    },
                ),
    {
        match self.position(id) {
            None => false,
            Some(k) => {
                let mut conn = self.judges.remove(k);
                if now > conn.last_heartbeat {
                    conn.last_heartbeat = now;
                }
                conn.load = load;
                self.judges.insert(k, conn);
                assert(self.judges@ =~= old(self).judges@.update(k as int, self.judges@[k as int]));
                true
            },
        }
    }

    /// Removes worker `id`. Returns whether it was registered.
    pub fn remove(&mut self, id: &String) -> (r: bool)
        requires
            old(self).wf(),
        ensures
            final(self).wf(),
            r == exists|k: int|
                0 <= k < old(self).judges@.len() && old(self).judges@[k].info.judge_id@ == id@,
            !r ==> final(self).judges@ == old(self).judges@,
            r ==> exists|k: int|
                0 <= k < old(self).judges@.len() && old(self).judges@[k].info.judge_id@ == id@
                    && final(self).judges@ == old(self).judges@.remove(k),
    {
        match self.position(id) {
            None => false,
            Some(k) => {
                self.judges.remove(k);
                true
            },
        }
    }

    /// The candidates for a task in `lang` at `now`: the live workers that
    /// support it and whose score is within a fifth of the best one.
    pub fn select_candidates(&self, lang: Language, now: i64) -> (r: Result<
        Vec<String>,
        DispatchError,
    >)
        ensures
            match candidates_of(self.judges@, lang, now) {
                Ok(ids) => r is Ok && crate::judger::texts_view(r.unwrap()@) == ids,
                Err(e) => r == Err::<Vec<String>, DispatchError>(e),
            },
    {
        let ghost js = self.judges@;
        if self.judges.len() == 0 {
            return Err(DispatchError::NoJudge);
        }
        let mut min: Option<u64> = None;
        let mut i: usize = 0;
        while i < self.judges.len()
            invariant
                i <= js.len(),
                js == self.judges@,
                match min_eligible(js.take(i as int), lang, now) {
                    None => min is None,
                    Some(m) => min is Some && min.unwrap() as int == m,
                },
                min is Some ==> min.unwrap() <= u32::MAX as int * 100_008,
            decreases js.len() - i,
        {
            assert(js.take(i + 1).drop_last() =~= js.take(i as int));
            assert(js.take(i + 1).last() == js[i as int]);
            let c = &self.judges[i];
            if is_eligible(c, lang, now) {
                let s = c.load_score();
                min = match min {
                    None => Some(s),
                    Some(m) => Some(
                        if s < m {
                            s
                        } else {
                            m
                        },
                    ),
                };
            }
            i = i + 1;
        }
        assert(js.take(js.len() as int) =~= js);
        let m = match min {
            None => {
                return Err(DispatchError::NoneAvailable(lang));
            },
            Some(m) => m,
        };
        let mut out: Vec<String> = Vec::new();
        let mut i: usize = 0;
        while i < self.judges.len()
            invariant
                i <= js.len(),
                js == self.judges@,
                m <= u32::MAX as int * 100_008,
                crate::judger::texts_view(out@) == candidate_ids(js.take(i as int), lang, now, m as int),
            decreases js.len() - i,
        {
            assert(js.take(i + 1).drop_last() =~= js.take(i as int));
            assert(js.take(i + 1).last() == js[i as int]);
            let c = &self.judges[i];
            let ghost before = crate::judger::texts_view(out@);
            if is_eligible(c, lang, now) && 5 * (c.load_score() as u128) <= 6 * (m as u128) {
                out.push(c.info.judge_id.clone());
                assert(crate::judger::texts_view(out@) =~= before + seq![c.info.judge_id@]);
            } else {
                assert(crate::judger::texts_view(out@) =~= before + Seq::<Seq<char>>::empty());
            }
            i = i + 1;
        }
        assert(js.take(js.len() as int) =~= js);
        Ok(out)
    }

    /// The worker that receives a task in `lang` at `now`: one of the
    /// candidates, drawn at random, or why there is none.
    pub fn select_judge(&self, lang: Language, now: i64) -> (r: Result<String, DispatchError>)
        ensures
            match candidates_of(self.judges@, lang, now) {
                Ok(ids) => r is Ok && ids.contains(r.unwrap()@),
                Err(e) => r == Err::<String, DispatchError>(e),
            },
    {
        let cands = self.select_candidates(lang, now)?;
        proof {
            lemma_min_is_lower_bound(self.judges@, lang, now);
            let m = min_eligible(self.judges@, lang, now).unwrap();
            let i = choose|i: int|
                0 <= i < self.judges@.len() && eligible(#[trigger] self.judges@[i], lang, now)
                    && score_of(self.judges@[i].load) == m;
            lemma_candidate_listed(self.judges@, lang, now, m, i);
        }
        let k = random_below(cands.len());
        let id = cands[k].clone();
        assert(crate::judger::texts_view(cands@)[k as int] == id@);
        Ok(id)
    }
}

} // verus!
