//! Putting together the games of an account: the giveaway products, their
//! missing details taken from the catalog, and the products the account
//! has bought.
use crate::legacy_games::api::models::{
    games_view, products_view, Product, ProductGame, ProductGameView, ProductView,
};
use std::collections::HashMap;
use vstd::prelude::*;
use vstd::string::StrSliceExecFns;

verus! {

/// The catalog's product with id `id`: the last one listed, as collecting
/// the catalog into a map by id keeps it.
pub open spec fn catalog_lookup(catalog: Seq<ProductView>, id: u64) -> Option<ProductView>
    decreases catalog.len(),
{
    if catalog.len() == 0 {
        None
    } else if catalog.last().id == id {
        Some(catalog.last())
    } else {
        catalog_lookup(catalog.drop_last(), id)
    }
}

/// The first game of `games` with installer `uuid`.
pub open spec fn find_game(games: Seq<ProductGameView>, uuid: Seq<char>) -> Option<ProductGameView>
    decreases games.len(),
{
    if games.len() == 0 {
        None
    } else if games[0].installer_uuid == uuid {
        Some(games[0])
    } else {
        find_game(games.drop_first(), uuid)
    }
}

/// A game with an empty name or description takes it from the game with
/// the same installer in the catalog's product, where there is one.
pub open spec fn fill_game(g: ProductGameView, cat: Option<ProductView>) -> ProductGameView {
    match cat {
        Some(cp) => if g.game_name.len() == 0 || g.game_description.len() == 0 {
            match find_game(cp.games, g.installer_uuid) {
                Some(cg) => ProductGameView {
                    game_name: if g.game_name.len() == 0 {
                        cg.game_name
                    } else {
                        g.game_name
                    },
                    game_description: if g.game_description.len() == 0 {
                        cg.game_description
                    } else {
                        g.game_description
                    },
                    ..g
                },
                None => g,
            }
        } else {
            g
        },
        None => g,
    }
}

/// A giveaway product with its games' gaps filled from the catalog.
pub open spec fn fill_product(p: ProductView, catalog: Seq<ProductView>) -> ProductView {
    ProductView {
        games: p.games.map_values(|g: ProductGameView| fill_game(g, catalog_lookup(catalog, p.id))),
        ..p
    }
}

/// The bought products, in the order of `ids`: each catalog product once,
/// those in `taken` already given out.
pub open spec fn entitled_products(catalog: Seq<ProductView>, ids: Seq<u64>, taken: Seq<u64>) -> Seq<
    ProductView,
>
    decreases ids.len(),
{
    if ids.len() == 0 {
        Seq::empty()
    } else {
        let id = ids[0];
        match catalog_lookup(catalog, id) {
            Some(p) => if !taken.contains(id) {
                seq![p] + entitled_products(catalog, ids.drop_first(), taken.push(id))
            } else {
                entitled_products(catalog, ids.drop_first(), taken)
            },
            None => entitled_products(catalog, ids.drop_first(), taken),
        }
    }
}

/// All the games of an account: the giveaway products, filled in, then the
/// bought ones.
pub open spec fn merged_products(
    products: Seq<ProductView>,
    catalog: Seq<ProductView>,
    entitled: Option<Seq<u64>>,
) -> Seq<ProductView> {
    products.map_values(|p: ProductView| fill_product(p, catalog)) + match entitled {
        Some(ids) => entitled_products(catalog, ids, Seq::empty()),
        None => Seq::empty(),
    }
}


/// Products given out for the purchases: no product twice, and none of those
/// already given out.
pub proof fn law_entitled_products_distinct(catalog: Seq<ProductView>, ids: Seq<u64>, taken: Seq<u64>)
    ensures
        forall|i: int, j: int|
            0 <= i < j < entitled_products(catalog, ids, taken).len() ==> entitled_products(
                catalog,
                ids,
                taken,
            )[i].id != entitled_products(catalog, ids, taken)[j].id,
        forall|i: int|
            0 <= i < entitled_products(catalog, ids, taken).len() ==> !taken.contains(
                entitled_products(catalog, ids, taken)[i].id,
            ),
    decreases ids.len(),
{
    if ids.len() > 0 {
        let id = ids[0];
        let rest = ids.drop_first();
        match catalog_lookup(catalog, id) {
            Some(p) => {
                if !taken.contains(id) {
                    lemma_lookup_id(catalog, id);
                    let t2 = taken.push(id);
                    law_entitled_products_distinct(catalog, rest, t2);
                    let tail = entitled_products(catalog, rest, t2);
                    let all = seq![p] + tail;
                    assert(entitled_products(catalog, ids, taken) == all);
                    assert forall|i: int| 0 <= i < tail.len() implies tail[i].id != id && !taken.contains(tail[i].id) by {
                        assert(!t2.contains(tail[i].id));
                        assert(t2[t2.len() - 1] == id);
                        if taken.contains(tail[i].id) {
                            let k = choose|k: int| 0 <= k < taken.len() && taken[k] == tail[i].id;
                            assert(t2[k] == tail[i].id);
                        }
                    }
                    assert forall|i: int, j: int| 0 <= i < j < all.len() implies all[i].id != all[j].id by {
                        if i == 0 {
                            assert(all[j] == tail[j - 1]);
                        } else {
                            assert(all[i] == tail[i - 1] && all[j] == tail[j - 1]);
                        }
                    }
                    assert forall|i: int| 0 <= i < all.len() implies !taken.contains(all[i].id) by {
                        if i > 0 {
                            assert(all[i] == tail[i - 1]);
                        }
                    }
                } else {
                    law_entitled_products_distinct(catalog, rest, taken);
                    assert(entitled_products(catalog, ids, taken) == entitled_products(
                        catalog,
                        rest,
                        taken,
                    ));
                }
            },
            None => {
                law_entitled_products_distinct(catalog, rest, taken);
                assert(entitled_products(catalog, ids, taken) == entitled_products(
                    catalog,
                    rest,
                    taken,
                ));
            },
        }
    }
}

/// What the catalog gives for an id has that id.
proof fn lemma_lookup_id(catalog: Seq<ProductView>, id: u64)
    ensures
        catalog_lookup(catalog, id) matches Some(p) ==> p.id == id,
    decreases catalog.len(),
{
    if catalog.len() > 0 && catalog.last().id != id {
        lemma_lookup_id(catalog.drop_last(), id);
    }
}

/// A map by product id holds the catalog's products, the last one listed
/// for each id, except those whose ids are in `taken`.
spec fn holds_catalog(m: Map<u64, Product>, cv: Seq<ProductView>, taken: Seq<u64>) -> bool {
    &&& forall|id: u64| #[trigger]
        m.contains_key(id) <==> (catalog_lookup(cv, id) is Some && !taken.contains(id))
    &&& forall|id: u64| #[trigger] m.contains_key(id) ==> catalog_lookup(cv, id) == Some(m[id]@)
}

/// The catalog collected into a map by product id; a later product with
/// the same id replaces an earlier one.
fn catalog_map(catalog: &Vec<Product>) -> (m: HashMap<u64, Product>)
    ensures
        holds_catalog(m@, products_view(catalog@), Seq::empty()),
{
    broadcast use vstd::std_specs::hash::group_hash_axioms;

    let ghost pv = products_view(catalog@);
    let mut m: HashMap<u64, Product> = HashMap::new();
    let mut i: usize = 0;
    assert(pv.take(0) =~= Seq::<ProductView>::empty());
    while i < catalog.len()
        invariant
            i <= catalog.len(),
            pv == products_view(catalog@),
            holds_catalog(m@, pv.take(i as int), Seq::empty()),
        decreases catalog.len() - i,
    {
        let p = catalog[i].clone();
        let ghost before = m@;
        m.insert(catalog[i].id, p);
        assert(pv.take(i + 1).drop_last() =~= pv.take(i as int));
        assert(pv.take(i + 1).last() == catalog@[i as int]@);
        i += 1;
    }
    assert(pv.take(i as int) =~= pv);
    m
}

/// Where the first game with installer `uuid` is.
fn find_game_index(games: &Vec<ProductGame>, uuid: &String) -> (r: Option<usize>)
    ensures
        match r {
            Some(j) => j < games.len() && find_game(games_view(games@), uuid@) == Some(
                games@[j as int]@,
            ),
            None => find_game(games_view(games@), uuid@) is None,
        },
{
    let ghost gv = games_view(games@);
    let mut j: usize = 0;
    assert(gv.subrange(0, gv.len() as int) =~= gv);
    while j < games.len()
        invariant
            j <= games.len(),
            gv == games_view(games@),
            find_game(gv, uuid@) == find_game(gv.subrange(j as int, gv.len() as int), uuid@),
        decreases games.len() - j,
    {
        assert(gv.subrange(j as int, gv.len() as int)[0] == games@[j as int]@);
        if games[j].installer_uuid == *uuid {
            return Some(j);
        }
        assert(gv.subrange(j as int, gv.len() as int).drop_first() =~= gv.subrange(
            j + 1,
            gv.len() as int,
        ));
        j += 1;
    }
    None
}

fn fill_game_exec(g: &ProductGame, cat: Option<&Product>) -> (r: ProductGame)
    ensures
        r@ == fill_game(
            g@,
            match cat {
                Some(p) => Some(p@),
                None => None,
            },
        ),
{
    match cat {
        Some(cp) => {
            if g.game_name.as_str().unicode_len() == 0 || g.game_description.as_str().unicode_len()
                == 0 {
                match find_game_index(&cp.games, &g.installer_uuid) {
                    Some(j) => {
                        let cg = &cp.games[j];
                        ProductGame {
                            game_id: g.game_id.clone(),
                            game_name: if g.game_name.as_str().unicode_len() == 0 {
                                cg.game_name.clone()
                            } else {
                                g.game_name.clone()
                            },
                            game_description: if g.game_description.as_str().unicode_len() == 0 {
                                cg.game_description.clone()
                            } else {
                                g.game_description.clone()
                            },
                            game_coverart: g.game_coverart.clone(),
                            installer_uuid: g.installer_uuid.clone(),
                        }
                    },
                    None => g.clone(),
                }
            } else {
                g.clone()
            }
        },
        None => g.clone(),
    }
}

fn fill_product_exec(p: &Product, catalog: &HashMap<u64, Product>, Ghost(cv): Ghost<Seq<ProductView>>) -> (r: Product)
    requires
        holds_catalog(catalog@, cv, Seq::empty()),
    ensures
        r@ == fill_product(p@, cv),
{
    broadcast use vstd::std_specs::hash::group_hash_axioms;

    let cat = catalog.get(&p.id);
    proof {
        if catalog@.contains_key(p.id) {
            assert(!Seq::<u64>::empty().contains(p.id));
        }
    }
    let mut games: Vec<ProductGame> = Vec::new();
    let mut j: usize = 0;
    while j < p.games.len()
        invariant
            j <= p.games.len(),
            games.len() == j,
            forall|k: int|
                0 <= k < j ==> games@[k]@ == fill_game(
                    p.games@[k]@,
                    catalog_lookup(cv, p.id),
                ),
            catalog_lookup(cv, p.id) == match cat {
                Some(c) => Some(c@),
                None => None::<ProductView>,
            },
        decreases p.games.len() - j,
    {
        games.push(fill_game_exec(&p.games[j], cat));
        j += 1;
    }
    let r = Product { id: p.id, games };
    assert(r@.games =~= fill_product(p@, cv).games);
    r
}

/// The games of an account: the giveaway products with gaps in their games
/// filled from the catalog, then, when the account has bought products,
/// those taken from the catalog, each once.
pub fn merge_products(products: Vec<Product>, catalog: Vec<Product>, entitled: Option<Vec<u64>>) -> (r: Vec<Product>)
    ensures
        products_view(r@) == merged_products(
            products_view(products@),
            products_view(catalog@),
            match entitled {
                Some(ids) => Some(ids@),
                None => None,
            },
        ),
{
    broadcast use vstd::std_specs::hash::group_hash_axioms;

    let ghost cv = products_view(catalog@);
    let mut cat = catalog_map(&catalog);
    let mut result: Vec<Product> = Vec::new();
    let mut i: usize = 0;
    while i < products.len()
        invariant
            i <= products.len(),
            holds_catalog(cat@, cv, Seq::empty()),
            result.len() == i,
            forall|k: int| 0 <= k < i ==> result@[k]@ == fill_product(products@[k]@, cv),
        decreases products.len() - i,
    {
        let filled = fill_product_exec(&products[i], &cat, Ghost(cv));
        result.push(filled);
        i += 1;
    }
    assert(products_view(result@) =~= products_view(products@).map_values(
        |p: ProductView| fill_product(p, cv),
    ));
    let ghost head = products_view(result@);
    match entitled {
        Some(ids) => {
            let ghost mut taken: Seq<u64> = Seq::empty();
            let mut k: usize = 0;
            assert(ids@.skip(0) =~= ids@);
            while k < ids.len()
                invariant
                    k <= ids.len(),
                    holds_catalog(cat@, cv, taken),
                    products_view(result@) + entitled_products(cv, ids@.skip(k as int), taken)
                        == head + entitled_products(cv, ids@, Seq::empty()),
                decreases ids.len() - k,
            {
                let id = ids[k];
                assert(ids@.skip(k as int).drop_first() =~= ids@.skip(k + 1));
                assert(ids@.skip(k as int)[0] == id);
                let ghost m0 = cat@;
                match cat.remove(&id) {
                    Some(prod) => {
                        let ghost before = products_view(result@);
                        let ghost pv = prod@;
                        result.push(prod);
                        proof {
                            assert(cat@ == m0.remove(id));
                            let old_taken = taken;
                            taken = taken.push(id);
                            assert(taken.drop_last() =~= old_taken);
                            assert forall|x: u64| #[trigger] cat@.contains_key(x) <==> (catalog_lookup(cv, x) is Some
                                && !taken.contains(x)) by {
                                if x != id {
                                    assert(taken.contains(x) <==> taken.drop_last().contains(x)) by {
                                        if taken.contains(x) {
                                            let w = choose|w: int| 0 <= w < taken.len() && taken[w] == x;
                                            assert(w < taken.len() - 1);
                                            assert(taken.drop_last()[w] == x);
                                        }
                                        if taken.drop_last().contains(x) {
                                            let w = choose|w: int| 0 <= w < taken.drop_last().len() && taken.drop_last()[w] == x;
                                            assert(taken[w] == x);
                                        }
                                    }
                                } else {
                                    assert(taken[taken.len() - 1] == id);
                                }
                            }
                        }
                        assert(products_view(result@) =~= before.push(pv));
                        assert(before.push(pv) + entitled_products(cv, ids@.skip(k + 1), taken) =~= before + (
                        seq![pv] + entitled_products(cv, ids@.skip(k + 1), taken)));
                    },
                    None => {},
                }
                k += 1;
            }
            assert(ids@.skip(k as int) =~= Seq::<u64>::empty());
            assert(products_view(result@) =~= products_view(result@) + Seq::<ProductView>::empty());
        },
        None => {
            assert(products_view(result@) =~= head + Seq::<ProductView>::empty());
        },
    }
    result
}

} // verus!
