//! Signin with a token, partial profile updates, and the distinct tag names.

use vstd::prelude::*;

use crate::error::AppError;
use crate::model::User;
use crate::password::{hash_password, password_verifies};
use crate::response::{names_of, views_of};
use crate::store::{Store, UpdatableUser, signin_result, update_check, updated_user, user_pos};
use crate::token::{ONE_DAY, decoded_fields, generate, issued_fields};

verus! {

/// Whether `v` holds a string equal to `s`.
fn holds_string(v: &Vec<String>, s: &String) -> (r: bool)
    ensures
        r == views_of(v@).contains(s@),
{
    let mut i: usize = 0;
    while i < v.len()
        invariant
            i <= v@.len(),
            forall|k: int| 0 <= k < i ==> v@[k]@ != s@,
        decreases v@.len() - i,
    {
        if v[i].eq(s) {
            assert(views_of(v@)[i as int] == s@);
            return true;
        }
        i = i + 1;
    }
    false
}

impl Store {
    /// Signs in: the user registered with `email`, when `password` matches
    /// its hash, and a token for that user issued at `now`.
    pub fn signin(&self, email: &str, password: &str, key: &[u8], now: i64) -> (r: Result<
        (User, String),
        AppError,
    >)
        requires
            self.wf(),
            now <= i64::MAX - ONE_DAY,
        ensures
            match signin_result(*self, email@, password@) {
                Err(e) => r == Err::<(User, String), AppError>(e),
                Ok(u) => r matches Ok((v, t)) && v == u && (0 <= now + ONE_DAY ==> decoded_fields(
                    t@,
                    key@,
                ) == issued_fields(u.id, now, (now + ONE_DAY) as i64)),
            },
    {
        let user = match self.check_credentials(email, password) {
            Ok(u) => u,
            Err(e) => {
                return Err(e);
            },
        };
        let token = generate(user.id, now, key);
        Ok((user, token))
    }

    /// Applies a partial update to user `id`: only the given fields change;
    /// a new password is hashed before it is stored.
    pub fn update(&mut self, id: i64, changes: UpdatableUser, now: i64) -> (r: Result<User, AppError>)
        requires
            old(self).wf(),
        ensures
            final(self).wf(),
            match update_check(
                *old(self),
                id,
                changes.email,
                changes.username,
            ) {
                Some(e) => r == Err::<User, AppError>(e) && *final(self) == *old(self),
                None => match r {
                    Ok(u) => {
                        let pos = user_pos(old(self).users@, id);
                        let hash = match changes.password {
                            Some(_) => Some(u.password),
                            None => None,
                        };
                        &&& u == updated_user(
                            old(self).users@[pos],
                            changes.email,
                            changes.username,
                            hash,
                            changes.bio,
                            changes.image,
                            now,
                        )
                        &&& (changes.password matches Some(p) ==> password_verifies(p@, u.password@))
                        &&& final(self).users@ == old(self).users@.update(pos, u)
                        &&& final(self).next_id == old(self).next_id
                        &&& final(self).articles@ == old(self).articles@
                        &&& final(self).tags@ == old(self).tags@
                        &&& final(self).follows@ == old(self).follows@
                        &&& final(self).favorites@ == old(self).favorites@
                        &&& final(self).comments@ == old(self).comments@
                    },
                    Err(e) => e == AppError::StoreUnavailable && changes.password is Some
                        && *final(self) == *old(self),
                },
            },
    {
        let UpdatableUser { email, username, password, bio, image } = changes;
        let hash = match &password {
            None => None,
            Some(p) => {
                if let Some(e) = self.check_update(id, &email, &username) {
                    return Err(e);
                }
                match hash_password(p.as_str(), self.hash_cost) {
                    Some(h) => Some(h),
                    None => {
                        return Err(AppError::StoreUnavailable);
                    },
                }
            },
        };
        self.update_with_hash(id, email, username, hash, bio, image, now)
    }

    /// The distinct tag names, in order of first use.
    pub fn list(&self) -> (r: Vec<String>)
        ensures
            views_of(r@).no_duplicates(),
            forall|x: Seq<char>| views_of(r@).contains(x) <==> names_of(self.tags@).contains(x),
    {
        let mut out: Vec<String> = Vec::new();
        let mut i: usize = 0;
        while i < self.tags.len()
            invariant
                i <= self.tags@.len(),
                views_of(out@).no_duplicates(),
                forall|x: Seq<char>|
                    views_of(out@).contains(x) <==> names_of(self.tags@.subrange(0, i as int)).contains(x),
            decreases self.tags@.len() - i,
        {
            let ghost prev = out@;
            let name = &self.tags[i].name;
            proof {
                assert(names_of(self.tags@.subrange(0, i + 1)) =~= names_of(
                    self.tags@.subrange(0, i as int),
                ).push(name@));
            }
            if !holds_string(&out, name) {
                out.push(name.clone());
                proof {
                    assert(views_of(out@) =~= views_of(prev).push(name@));
                }
            }
            proof {
                let np = names_of(self.tags@.subrange(0, i as int));
                let nv = np.push(name@);
                let vp = views_of(prev);
                let vo = views_of(out@);
                assert(vp.contains(name@) ==> vo == vp);
                assert forall|x: Seq<char>| vo.contains(x) <==> nv.contains(x) by {
                    if nv.contains(x) {
                        let k = choose|k: int| 0 <= k < nv.len() && nv[k] == x;
                        if k < np.len() {
                            assert(np[k] == x);
                            assert(vp.contains(x));
                            let j = choose|j: int| 0 <= j < vp.len() && vp[j] == x;
                            assert(vo[j] == x);
                        } else if !vp.contains(name@) {
                            assert(vo[vo.len() - 1] == x);
                        }
                    }
                    if vo.contains(x) {
                        let k = choose|k: int| 0 <= k < vo.len() && vo[k] == x;
                        if k < vp.len() {
                            assert(vp[k] == x);
                            assert(vp.contains(x));
                            assert(np.contains(x));
                            let j = choose|j: int| 0 <= j < np.len() && np[j] == x;
                            assert(nv[j] == x);
                        } else {
                            assert(nv[nv.len() - 1] == x);
                        }
                    }
                }
            }
            i = i + 1;
        }
        proof {
            assert(self.tags@.subrange(0, i as int) == self.tags@);
        }
        out
    }
}

} // verus!
